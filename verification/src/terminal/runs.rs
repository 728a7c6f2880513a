//! Escape sequences that update a screen run by run.
//!
//! A run is a stretch of changed cells. The cursor is placed at the start of each run, and the
//! cells of the run follow; what did not change is not looked at.

use crate::terminal::display;
use crate::terminal::display::cell_changed;
use crate::terminal::display::push_cell_text;
use crate::terminal::display::push_cursor_update;
use crate::terminal::display::push_style_change;
use crate::terminal::escape;
use crate::terminal::escape::push_cursor_to;
use crate::terminal::snapshot;
use crate::terminal::snapshot::CellData;
use crate::terminal::snapshot::CellStyle;
use crate::terminal::snapshot::CellView;
use crate::terminal::snapshot::ScreenSnapshot;
use crate::terminal::snapshot::ScreenView;
use vstd::prelude::*;

verus! {

/// Whether position `x` is looked at: not where a wide cell just written covers it.
pub open spec fn visited(old_row: Seq<CellView>, new_row: Seq<CellView>, x: int) -> bool
    decreases x,
{
    x <= 0 || !(visited(old_row, new_row, x - 1) && display::changed(old_row, new_row, x - 1)
        && new_row[x - 1].wide)
}

/// Whether the cell at position `x` is written.
pub open spec fn written(old_row: Seq<CellView>, new_row: Seq<CellView>, x: int) -> bool {
    visited(old_row, new_row, x) && display::changed(old_row, new_row, x)
}

/// Whether a cell written at position `x` starts a run: the cell before it was looked at and left
/// alone, or there is none.
pub open spec fn starts_run(old_row: Seq<CellView>, new_row: Seq<CellView>, x: int) -> bool {
    x <= 0 || visited(old_row, new_row, x - 1) && !display::changed(old_row, new_row, x - 1)
}

/// The style change before a cell, where the cell written last had the style `last`: a reset if that
/// was styled and another style follows, then the new style. A plain cell in the place of a styled
/// one is preceded by a reset in any case.
pub open spec fn run_style(was: CellStyle, style: CellStyle, last: CellStyle) -> Seq<char> {
    let plain = snapshot::plain_style();
    if style == plain && was != plain {
        escape::reset_style()
    } else {
        display::style_change(last, style)
    }
}

/// What is written for the changed cell at position `x` of row `y`.
pub open spec fn run_cell(
    old_row: Seq<CellView>,
    new_row: Seq<CellView>,
    y: int,
    x: int,
    last: CellStyle,
) -> Seq<char> {
    (if starts_run(old_row, new_row, x) {
        escape::cursor_to((y + 1) as nat, (x + 1) as nat)
    } else {
        seq![]
    }) + run_style(old_row[x].style, new_row[x].style, last) + display::cell_text(new_row[x])
}

/// What is written for the first `n` positions of row `y`, and the style written last.
pub open spec fn row_runs(
    old_row: Seq<CellView>,
    new_row: Seq<CellView>,
    y: int,
    n: int,
    last: CellStyle,
) -> (Seq<char>, CellStyle)
    decreases n,
{
    if n <= 0 {
        (seq![], last)
    } else {
        let done = row_runs(old_row, new_row, y, n - 1, last);
        if written(old_row, new_row, n - 1) {
            (done.0 + run_cell(old_row, new_row, y, n - 1, done.1), new_row[n - 1].style)
        } else {
            done
        }
    }
}

/// What is written for the first `n` rows, and the style written last.
pub open spec fn screen_runs(shown: ScreenView, new: ScreenView, n: int) -> (Seq<char>, CellStyle)
    decreases n,
{
    if n <= 0 {
        (seq![], snapshot::plain_style())
    } else {
        let done = screen_runs(shown, new, n - 1);
        let row = row_runs(shown.rows[n - 1], new.rows[n - 1], n - 1, new.cols as int, done.1);
        (done.0 + row.0, row.1)
    }
}

/// The sequences that turn the display of one screen into that of another, run by run.
pub open spec fn run_update(shown: ScreenView, new: ScreenView) -> Seq<char> {
    if display::same_size(shown, new) {
        let runs = screen_runs(shown, new, new.rows_count as int);
        runs.0 + display::style_change(runs.1, snapshot::plain_style()) + display::cursor_update(
            shown,
            new,
        )
    } else {
        display::redraw(new)
    }
}

/// Appends the runs of row `y`; `last` is the style written last, before and after.
fn push_row_runs(
    out: &mut String,
    last: &mut CellStyle,
    old_row: &Vec<CellData>,
    new_row: &Vec<CellData>,
    y: usize,
    cols: usize,
)
    requires
        cols <= old_row@.len(),
        cols <= new_row@.len(),
        y <= u16::MAX,
        cols <= u16::MAX,
    ensures
        final(out)@ == old(out)@ + row_runs(
            snapshot::row_view(old_row@),
            snapshot::row_view(new_row@),
            y as int,
            cols as int,
            *old(last),
        ).0,
        *final(last) == row_runs(
            snapshot::row_view(old_row@),
            snapshot::row_view(new_row@),
            y as int,
            cols as int,
            *old(last),
        ).1,
{
    let ghost o = snapshot::row_view(old_row@);
    let ghost n = snapshot::row_view(new_row@);
    let mut in_run = false;
    let mut x: usize = 0;
    assert(out@ =~= old(out)@ + row_runs(o, n, y as int, 0, *old(last)).0);
    while x < cols
        invariant
            x <= cols <= new_row@.len(),
            cols <= old_row@.len(),
            cols <= u16::MAX,
            y <= u16::MAX,
            o == snapshot::row_view(old_row@),
            n == snapshot::row_view(new_row@),
            visited(o, n, x as int) || x == cols,
            x < cols ==> in_run == !starts_run(o, n, x as int),
            out@ == old(out)@ + row_runs(o, n, y as int, x as int, *old(last)).0,
            *last == row_runs(o, n, y as int, x as int, *old(last)).1,
        decreases cols - x,
    {
        if !cell_changed(old_row, new_row, x) {
            in_run = false;
            x = x + 1;
            continue ;
        }
        let ghost before = out@;
        let ghost last_before = *last;
        let cell = &new_row[x];
        let old_cell = &old_row[x];
        assert(n[x as int] == cell@ && o[x as int] == old_cell@);
        if !in_run {
            push_cursor_to(out, y as u64 + 1, x as u64 + 1);
        }
        if cell.style.is_default() && !old_cell.style.is_default() {
            out.push_str("\x1b[0m");
        } else {
            push_style_change(out, last, &cell.style);
        }
        *last = cell.style;
        push_cell_text(out, cell);
        assert(out@ =~= before + run_cell(o, n, y as int, x as int, last_before));
        assert(out@ =~= old(out)@ + row_runs(o, n, y as int, x + 1, *old(last)).0);
        in_run = true;
        if cell.wide && x + 1 < cols {
            x = x + 1;
            assert(!visited(o, n, x as int));
        }
        x = x + 1;
    }
}

/// Generates the escape sequences for screen snapshots, run by run.
pub struct DisplayDiff;

impl DisplayDiff {
    /// The escape sequences that render a full snapshot from scratch.
    pub fn full_redraw(snap: &ScreenSnapshot) -> (res: String)
        ensures
            res@ == display::redraw(snap@),
    {
        display::DisplayDiff::full_redraw(snap)
    }

    /// The escape sequences that turn the display of `shown` into that of `new`.
    ///
    /// Compares cell by cell and writes only the runs that changed; where the dimensions differ,
    /// everything is written.
    pub fn diff(shown: &ScreenSnapshot, new: &ScreenSnapshot) -> (res: String)
        requires
            display::same_size(shown@, new@) ==> shown@.covers() && new@.covers(),
        ensures
            res@ == run_update(shown@, new@),
    {
        if shown.cols != new.cols || shown.rows_count != new.rows_count {
            return Self::full_redraw(new);
        }
        let mut out = String::new();
        let mut last = CellStyle::default_style();
        let mut y: usize = 0;
        assert(out@ =~= screen_runs(shown@, new@, 0).0);
        while y < new.rows_count as usize
            invariant
                y <= new.rows_count,
                shown@.covers(),
                new@.covers(),
                display::same_size(shown@, new@),
                out@ == screen_runs(shown@, new@, y as int).0,
                last == screen_runs(shown@, new@, y as int).1,
            decreases new.rows_count - y,
        {
            assert(new@.rows[y as int].len() >= new.cols);
            assert(shown@.rows[y as int].len() >= new.cols);
            push_row_runs(
                &mut out,
                &mut last,
                &shown.rows[y],
                &new.rows[y],
                y,
                new.cols as usize,
            );
            y = y + 1;
        }
        push_style_change(&mut out, &last, &CellStyle::default_style());
        push_cursor_update(&mut out, shown, new);
        assert(out@ =~= run_update(shown@, new@));
        out
    }
}

} // verus!
