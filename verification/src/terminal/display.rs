//! Escape sequences that draw a screen: from scratch, or as a change to what is already shown.
//!
//! The change is computed with knowledge of the pen, the style in which the terminal would write
//! next: every position of a changed row is visited, and the pen is brought in line wherever the
//! new screen asks for another style.

use crate::terminal::escape;
use crate::terminal::escape::push_cursor_to;
use crate::terminal::escape::style_on;
use crate::terminal::snapshot;
use crate::terminal::snapshot::CellData;
use crate::terminal::snapshot::CellStyle;
use crate::terminal::snapshot::CellView;
use crate::terminal::snapshot::ScreenSnapshot;
use crate::terminal::snapshot::ScreenView;
use vstd::prelude::*;

verus! {

/// The text written for a cell: a blank cell is drawn as a space.
pub open spec fn cell_text(cell: CellView) -> Seq<char> {
    if cell.text.len() == 0 {
        " "@
    } else {
        cell.text
    }
}

/// The style of the cell before position `x` of a row; the default style at the start of the row.
pub open spec fn style_before(row: Seq<CellView>, x: int) -> CellStyle {
    if x <= 0 {
        snapshot::plain_style()
    } else {
        row[x - 1].style
    }
}

/// The style in which the terminal writes next at position `x` of a row: that of the last cell
/// looked at before it, the default style at the start of the row.
pub open spec fn pen_before(row: Seq<CellView>, x: int) -> CellStyle
    decreases x,
{
    if x <= 0 {
        snapshot::plain_style()
    } else if visited(row, x - 1) {
        row[x - 1].style
    } else {
        pen_before(row, x - 1)
    }
}

/// What is written to go from drawing in style `from` to drawing in style `to`: nothing if they are
/// the same, else a reset unless there is nothing to reset, then the new style.
pub open spec fn style_change(from: CellStyle, to: CellStyle) -> Seq<char> {
    if to == from {
        seq![]
    } else if from == snapshot::plain_style() {
        escape::style_sequence(to)
    } else {
        escape::reset_style() + escape::style_sequence(to)
    }
}

/// The first `n` cells of a row, drawn one after the other.
pub open spec fn drawn_cells(row: Seq<CellView>, n: int) -> Seq<char>
    decreases n,
{
    if n <= 0 {
        seq![]
    } else {
        drawn_cells(row, n - 1) + style_change(style_before(row, n - 1), row[n - 1].style)
            + cell_text(row[n - 1])
    }
}

/// A whole row, back in the default style at its end.
pub open spec fn drawn_row(row: Seq<CellView>) -> Seq<char> {
    drawn_cells(row, row.len() as int) + style_change(
        style_before(row, row.len() as int),
        snapshot::plain_style(),
    )
}

/// The first `n` rows, each on a line of its own.
pub open spec fn drawn_rows(rows: Seq<Seq<CellView>>, n: int) -> Seq<char>
    decreases n,
{
    if n <= 0 {
        seq![]
    } else if n == 1 {
        drawn_row(rows[0])
    } else {
        drawn_rows(rows, n - 1) + "\r\n"@ + drawn_row(rows[n - 1])
    }
}

/// Places the cursor where the screen has it.
pub open spec fn place_cursor(screen: ScreenView) -> Seq<char> {
    escape::cursor_to((screen.cursor_y + 1) as nat, (screen.cursor_x + 1) as nat)
}

/// The sequences that draw a screen from scratch: the screen is cleared with the cursor hidden,
/// the rows are written from the top left corner, then the cursor is placed.
pub open spec fn redraw(screen: ScreenView) -> Seq<char> {
    escape::hide_cursor() + "\x1b[2J"@ + "\x1b[H"@ + drawn_rows(
        screen.rows,
        screen.rows.len() as int,
    ) + place_cursor(screen) + if screen.cursor_visible {
        escape::show_cursor()
    } else {
        seq![]
    }
}

/// Whether position `x` shows something else in the new row than in the old one.
pub open spec fn changed(old_row: Seq<CellView>, new_row: Seq<CellView>, x: int) -> bool {
    x >= old_row.len() || old_row[x] != new_row[x]
}

/// Whether any of the first `cols` positions differs.
pub open spec fn row_changed(old_row: Seq<CellView>, new_row: Seq<CellView>, cols: int) -> bool {
    exists|x: int| 0 <= x < cols && #[trigger] changed(old_row, new_row, x)
}

/// Whether position `x` is looked at: not where the cell before it is wide and covers it.
pub open spec fn visited(row: Seq<CellView>, x: int) -> bool
    decreases x,
{
    x <= 0 || !(visited(row, x - 1) && row[x - 1].wide)
}

/// What is written at position `x` of row `y`: the pen is set where it differs from the style that
/// the cell asks for, and the text is written where the cell changed. The cursor is moved unless
/// the pen was just set here or the cell just before was written.
pub open spec fn position_update(
    old_row: Seq<CellView>,
    new_row: Seq<CellView>,
    y: int,
    x: int,
) -> Seq<char> {
    let style = new_row[x].style;
    let turned = pen_before(new_row, x) != style;
    let here = escape::cursor_to((y + 1) as nat, (x + 1) as nat);
    let after_written = x > 0 && visited(new_row, x - 1) && changed(old_row, new_row, x - 1);
    if !visited(new_row, x) {
        seq![]
    } else {
        (if turned {
            here + escape::reset_style() + escape::style_sequence(style)
        } else {
            seq![]
        }) + if changed(old_row, new_row, x) {
            (if turned || after_written {
                seq![]
            } else {
                here
            }) + cell_text(new_row[x])
        } else {
            seq![]
        }
    }
}

/// The updates of the first `n` positions of row `y`.
pub open spec fn position_updates(
    old_row: Seq<CellView>,
    new_row: Seq<CellView>,
    y: int,
    n: int,
) -> Seq<char>
    decreases n,
{
    if n <= 0 {
        seq![]
    } else {
        position_updates(old_row, new_row, y, n - 1) + position_update(old_row, new_row, y, n - 1)
    }
}

/// The update of row `y`: nothing if it did not change, else its positions with a fresh pen.
pub open spec fn row_update(
    old_row: Seq<CellView>,
    new_row: Seq<CellView>,
    y: int,
    cols: int,
) -> Seq<char> {
    if row_changed(old_row, new_row, cols) {
        escape::reset_style() + position_updates(old_row, new_row, y, cols)
    } else {
        seq![]
    }
}

/// The updates of the first `n` rows.
pub open spec fn row_updates(shown: ScreenView, new: ScreenView, n: int) -> Seq<char>
    decreases n,
{
    if n <= 0 {
        seq![]
    } else {
        row_updates(shown, new, n - 1) + row_update(
            shown.rows[n - 1],
            new.rows[n - 1],
            n - 1,
            new.cols as int,
        )
    }
}

/// Places the cursor, and shows or hides it where that changed.
pub open spec fn cursor_update(shown: ScreenView, new: ScreenView) -> Seq<char> {
    place_cursor(new) + if shown.cursor_visible == new.cursor_visible {
        seq![]
    } else if new.cursor_visible {
        escape::show_cursor()
    } else {
        escape::hide_cursor()
    }
}

/// Whether two screens have the same dimensions.
pub open spec fn same_size(a: ScreenView, b: ScreenView) -> bool {
    a.cols == b.cols && a.rows_count == b.rows_count
}

/// The sequences that turn the display of one screen into that of another.
pub open spec fn screen_update(shown: ScreenView, new: ScreenView) -> Seq<char> {
    if same_size(shown, new) {
        row_updates(shown, new, new.rows_count as int) + cursor_update(shown, new)
    } else {
        redraw(new)
    }
}

impl ScreenView {
    /// The grid holds at least the announced rows.
    pub open spec fn has_rows(self) -> bool {
        self.rows_count <= self.rows.len()
    }

    /// The grid holds at least the announced rows, with at least the announced cells in each.
    pub open spec fn covers(self) -> bool {
        &&& self.has_rows()
        &&& forall|y: int| 0 <= y < self.rows_count ==> self.cols <= (#[trigger] self.rows[y]).len()
    }
}

/// Appends the text of a cell.
pub(crate) fn push_cell_text(out: &mut String, cell: &CellData)
    ensures
        final(out)@ == old(out)@ + cell_text(cell@),
{
    if cell.text.as_str().is_empty() {
        out.push_str(" ");
    } else {
        out.push_str(cell.text.as_str());
    }
}

/// Appends the change from one style to another.
pub(crate) fn push_style_change(out: &mut String, from: &CellStyle, to: &CellStyle)
    ensures
        final(out)@ == old(out)@ + style_change(*from, *to),
{
    if *to != *from {
        if !from.is_default() {
            out.push_str("\x1b[0m");
        }
        out.push_str(style_on(to).as_str());
    }
    assert(out@ =~= old(out)@ + style_change(*from, *to));
}

/// Appends a whole row.
fn push_row(out: &mut String, row: &Vec<CellData>)
    ensures
        final(out)@ == old(out)@ + drawn_row(snapshot::row_view(row@)),
{
    let ghost cells = snapshot::row_view(row@);
    let mut last_style = CellStyle::default_style();
    let mut x: usize = 0;
    assert(out@ =~= old(out)@ + drawn_cells(cells, 0));
    while x < row.len()
        invariant
            x <= row@.len(),
            cells == snapshot::row_view(row@),
            last_style == style_before(cells, x as int),
            out@ == old(out)@ + drawn_cells(cells, x as int),
        decreases row@.len() - x,
    {
        let cell = &row[x];
        assert(cells[x as int] == cell@);
        push_style_change(out, &last_style, &cell.style);
        push_cell_text(out, cell);
        last_style = cell.style;
        assert(out@ =~= old(out)@ + drawn_cells(cells, x + 1));
        x = x + 1;
    }
    push_style_change(out, &last_style, &CellStyle::default_style());
    assert(out@ =~= old(out)@ + drawn_row(cells));
}

/// Appends the placing of the cursor.
fn push_place_cursor(out: &mut String, snap: &ScreenSnapshot)
    ensures
        final(out)@ == old(out)@ + place_cursor(snap@),
{
    push_cursor_to(out, snap.cursor_y as u64 + 1, snap.cursor_x as u64 + 1);
}

/// Appends the update of the cursor.
pub(crate) fn push_cursor_update(out: &mut String, shown: &ScreenSnapshot, new: &ScreenSnapshot)
    ensures
        final(out)@ == old(out)@ + cursor_update(shown@, new@),
{
    push_place_cursor(out, new);
    if shown.cursor_visible != new.cursor_visible {
        if new.cursor_visible {
            out.push_str("\x1b[?25h");
        } else {
            out.push_str("\x1b[?25l");
        }
    }
    assert(out@ =~= old(out)@ + cursor_update(shown@, new@));
}

/// Whether position `x` changed between two rows.
pub(crate) fn cell_changed(old_row: &Vec<CellData>, new_row: &Vec<CellData>, x: usize) -> (res:
    bool)
    requires
        x < new_row@.len(),
    ensures
        res == changed(
            snapshot::row_view(old_row@),
            snapshot::row_view(new_row@),
            x as int,
        ),
{
    x >= old_row.len() || !old_row[x].same(&new_row[x])
}

/// Appends the update of position `x` of row `y`, and tells whether its text was written.
fn push_position_update(
    out: &mut String,
    old_row: &Vec<CellData>,
    new_row: &Vec<CellData>,
    y: usize,
    x: usize,
    pen_state: CellStyle,
    written_before: bool,
) -> (is_changed: bool)
    requires
        x < new_row@.len(),
        x <= u16::MAX,
        y <= u16::MAX,
        visited(snapshot::row_view(new_row@), x as int),
        pen_state == pen_before(snapshot::row_view(new_row@), x as int),
        written_before == (x > 0 && visited(snapshot::row_view(new_row@), x - 1) && changed(
            snapshot::row_view(old_row@),
            snapshot::row_view(new_row@),
            x - 1,
        )),
    ensures
        final(out)@ == old(out)@ + position_update(
            snapshot::row_view(old_row@),
            snapshot::row_view(new_row@),
            y as int,
            x as int,
        ),
        is_changed == changed(
            snapshot::row_view(old_row@),
            snapshot::row_view(new_row@),
            x as int,
        ),
{
    let new_cell = &new_row[x];
    let is_changed = cell_changed(old_row, new_row, x);
    let turned = pen_state != new_cell.style;
    if turned {
        push_cursor_to(out, y as u64 + 1, x as u64 + 1);
        out.push_str("\x1b[0m");
        out.push_str(style_on(&new_cell.style).as_str());
    }
    if is_changed {
        if !turned && !written_before {
            push_cursor_to(out, y as u64 + 1, x as u64 + 1);
        }
        push_cell_text(out, new_cell);
    }
    assert(out@ =~= old(out)@ + position_update(
        snapshot::row_view(old_row@),
        snapshot::row_view(new_row@),
        y as int,
        x as int,
    ));
    is_changed
}

/// Appends the update of row `y`.
fn push_row_update(
    out: &mut String,
    old_row: &Vec<CellData>,
    new_row: &Vec<CellData>,
    y: usize,
    cols: usize,
)
    requires
        cols <= new_row@.len(),
        y <= u16::MAX,
        cols <= u16::MAX,
    ensures
        final(out)@ == old(out)@ + row_update(
            snapshot::row_view(old_row@),
            snapshot::row_view(new_row@),
            y as int,
            cols as int,
        ),
{
    let ghost o = snapshot::row_view(old_row@);
    let ghost n = snapshot::row_view(new_row@);
    let mut any_changed = false;
    let mut k: usize = 0;
    while k < cols && !any_changed
        invariant
            k <= cols <= new_row@.len(),
            o == snapshot::row_view(old_row@),
            n == snapshot::row_view(new_row@),
            !any_changed ==> forall|x: int| 0 <= x < k ==> !#[trigger] changed(o, n, x),
            any_changed ==> row_changed(o, n, cols as int),
        decreases cols - k,
    {
        if cell_changed(old_row, new_row, k) {
            any_changed = true;
        }
        k = k + 1;
    }
    if !any_changed {
        assert(out@ =~= old(out)@ + row_update(o, n, y as int, cols as int));
        return ;
    }
    out.push_str("\x1b[0m");
    let ghost start = out@;
    let mut pen_state = CellStyle::default_style();
    let mut written_before = false;
    let mut x: usize = 0;
    assert(out@ =~= start + position_updates(o, n, y as int, 0));
    while x < cols
        invariant
            x <= cols <= new_row@.len(),
            cols <= u16::MAX,
            y <= u16::MAX,
            o == snapshot::row_view(old_row@),
            n == snapshot::row_view(new_row@),
            visited(n, x as int) || x == cols,
            pen_state == pen_before(n, x as int),
            x < cols ==> written_before == (x > 0 && visited(n, x - 1) && changed(o, n, x - 1)),
            out@ == start + position_updates(o, n, y as int, x as int),
        decreases cols - x,
    {
        let is_changed = push_position_update(
            out,
            old_row,
            new_row,
            y,
            x,
            pen_state,
            written_before,
        );
        assert(out@ =~= start + position_updates(o, n, y as int, x + 1));
        let new_cell = &new_row[x];
        assert(n[x as int] == new_cell@);
        pen_state = new_cell.style;
        if new_cell.wide && x + 1 < cols {
            x = x + 1;
            assert(!visited(n, x as int));
            assert(position_update(o, n, y as int, x as int) =~= Seq::<char>::empty());
            assert(out@ =~= start + position_updates(o, n, y as int, x + 1));
            written_before = false;
        } else {
            written_before = is_changed;
        }
        x = x + 1;
    }
    assert(out@ =~= old(out)@ + row_update(o, n, y as int, cols as int));
}

/// Generates the escape sequences for screen snapshots.
pub struct DisplayDiff;

impl DisplayDiff {
    /// The escape sequences that render a full snapshot from scratch.
    pub fn full_redraw(snap: &ScreenSnapshot) -> (res: String)
        ensures
            res@ == redraw(snap@),
    {
        let mut out = String::new();
        out.push_str("\x1b[?25l");
        out.push_str("\x1b[2J");
        out.push_str("\x1b[H");
        let ghost start = out@;
        let mut y: usize = 0;
        assert(out@ =~= start + drawn_rows(snap@.rows, 0));
        while y < snap.rows.len()
            invariant
                y <= snap.rows@.len(),
                out@ == start + drawn_rows(snap@.rows, y as int),
            decreases snap.rows@.len() - y,
        {
            if y > 0 {
                out.push_str("\r\n");
            }
            push_row(&mut out, &snap.rows[y]);
            assert(snap@.rows[y as int] == snapshot::row_view(
                snap.rows@[y as int]@,
            ));
            assert(out@ =~= start + drawn_rows(snap@.rows, y + 1));
            y = y + 1;
        }
        push_place_cursor(&mut out, snap);
        if snap.cursor_visible {
            out.push_str("\x1b[?25h");
        }
        assert(out@ =~= redraw(snap@));
        out
    }

    /// The escape sequences that turn the display of `shown` into that of `new`.
    ///
    /// Only what differs is written; where the dimensions differ, everything is.
    pub fn diff(shown: &ScreenSnapshot, new: &ScreenSnapshot) -> (res: String)
        requires
            same_size(shown@, new@) ==> shown@.has_rows() && new@.covers(),
        ensures
            res@ == screen_update(shown@, new@),
    {
        if shown.cols != new.cols || shown.rows_count != new.rows_count {
            return Self::full_redraw(new);
        }
        let mut out = String::new();
        let mut y: usize = 0;
        assert(out@ =~= row_updates(shown@, new@, 0));
        while y < new.rows_count as usize
            invariant
                y <= new.rows_count,
                shown@.has_rows(),
                new@.covers(),
                same_size(shown@, new@),
                out@ == row_updates(shown@, new@, y as int),
            decreases new.rows_count - y,
        {
            assert(new@.rows[y as int].len() >= new.cols);
            push_row_update(&mut out, &shown.rows[y], &new.rows[y], y, new.cols as usize);
            y = y + 1;
        }
        push_cursor_update(&mut out, shown, new);
        out
    }
}

} // verus!
