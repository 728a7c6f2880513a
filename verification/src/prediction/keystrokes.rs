//! What a keystroke does to the predictions, cell by cell.

use crate::prediction::engine;
use crate::prediction::engine::DisplayPreference;
use crate::prediction::engine::EngineView;
use crate::prediction::overlay;
use crate::prediction::overlay::ConditionalCursorMove;
use crate::prediction::overlay::OverlayCellView;
use crate::prediction::overlay::OverlayRowView;
use crate::time::Instant;
use vstd::prelude::*;

verus! {

/// Whether the engine holds cells for the row with number `row`.
pub open spec fn holds(e: EngineView, row: usize) -> bool {
    exists|i: int| 0 <= i < e.rows.len() && (#[trigger] e.rows[i]).0 == row
}

/// The cells that the engine holds for the row with number `row`.
pub open spec fn cells_of(e: EngineView, row: usize) -> Seq<OverlayCellView> {
    let i = choose|i: int| 0 <= i < e.rows.len() && (#[trigger] e.rows[i]).0 == row;
    e.rows[i].1.cells
}

/// Whether the engine's rows are in order, and each is as wide as the screen.
pub open spec fn in_shape(e: EngineView) -> bool {
    &&& forall|i: int, j: int|
        0 <= i < j < e.rows.len() ==> (#[trigger] e.rows[i]).0 < (#[trigger] e.rows[j]).0
    &&& forall|i: int|
        0 <= i < e.rows.len() ==> (#[trigger] e.rows[i]).1.cells.len() == e.last_width
            && e.rows[i].1.row_num == e.rows[i].0
}

/// Whether the screen has the dimensions that it had at the last keystroke.
pub open spec fn same_screen(e: EngineView, num_cols: usize, num_rows: usize) -> bool {
    e.last_height == num_rows && e.last_width == num_cols
}

/// Whether what is predicted for a row survives the arrival of a keystroke: the screen has kept its
/// dimensions, and the row is on it.
pub open spec fn survives(e: EngineView, row: usize, num_cols: usize, num_rows: usize) -> bool {
    holds(e, row) && row < num_rows && same_screen(e, num_cols, num_rows)
}

/// What was predicted at a position when the keystroke arrived.
pub open spec fn predicted_at(
    e: EngineView,
    row: usize,
    x: int,
    num_cols: usize,
    num_rows: usize,
) -> Option<OverlayCellView> {
    if survives(e, row, num_cols, num_rows) && cells_of(e, row)[x].active {
        Some(cells_of(e, row)[x])
    } else {
        None
    }
}

/// The known characters that were predicted at a position before a prediction that replaces them.
pub open spec fn history(was: Option<OverlayCellView>) -> Seq<char> {
    match was {
        Some(cell) => if cell.unknown {
            seq![]
        } else {
            cell.original_contents.push(cell.replacement)
        },
        None => seq![],
    }
}

/// Whether a cell predicts as of now, in the epoch of `after`: until the next frame has come back.
pub open spec fn fresh_prediction(
    cell: OverlayCellView,
    after: EngineView,
    now: Instant,
    was: Option<OverlayCellView>,
) -> bool {
    &&& cell.active
    &&& cell.tentative_until_epoch == after.prediction_epoch
    &&& cell.expiration_frame == after.local_frame_sent + 1
    &&& cell.prediction_time == now
    &&& cell.original_contents == history(was)
}

/// Whether a position is as the keystroke found it.
pub open spec fn untouched(
    e: EngineView,
    after: EngineView,
    row: usize,
    x: int,
    num_cols: usize,
    num_rows: usize,
) -> bool {
    if survives(e, row, num_cols, num_rows) {
        cells_of(after, row)[x] == cells_of(e, row)[x]
    } else {
        !cells_of(after, row)[x].active
    }
}

/// A row is found by its number.
proof fn named(e: EngineView, i: int)
    requires
        in_shape(e),
        0 <= i < e.rows.len(),
    ensures
        holds(e, e.rows[i].0),
        cells_of(e, e.rows[i].0) == e.rows[i].1.cells,
{
    let row = e.rows[i].0;
    let j = choose|j: int| 0 <= j < e.rows.len() && (#[trigger] e.rows[j]).0 == row;
    assert(0 <= j < e.rows.len() && e.rows[j].0 == row);
    if i < j {
        assert(e.rows[i].0 < e.rows[j].0);
    } else if j < i {
        assert(e.rows[j].0 < e.rows[i].0);
    }
}

proof fn found(e: EngineView, row: usize)
    requires
        in_shape(e),
    ensures
        holds(e, row) == overlay::has_row(e.rows, row),
        holds(e, row) ==> cells_of(e, row) == e.rows[overlay::slot(e.rows, row)].1.cells,
{
    overlay::slot_bounds(e.rows, row);
    let s = overlay::slot(e.rows, row);
    if overlay::has_row(e.rows, row) {
        named(e, s);
    }
    if holds(e, row) {
        let i = choose|i: int| 0 <= i < e.rows.len() && (#[trigger] e.rows[i]).0 == row;
        assert(e.rows[i].0 == row);
        if i > s {
            assert(e.rows[s].0 < e.rows[i].0);
        }
        named(e, i);
    }
}

/// The engine as a keystroke finds it.
spec fn met(e: EngineView, row: usize, col: usize, num_cols: usize, num_rows: usize) -> EngineView {
    e.resized(num_rows, num_cols).culled(num_rows).with_cursor(row, col)
}

proof fn met_in_shape(e: EngineView, row: usize, col: usize, num_cols: usize, num_rows: usize)
    requires
        in_shape(e),
        e.display_preference != DisplayPreference::Never,
    ensures
        in_shape(met(e, row, col, num_cols, num_rows)),
        met(e, row, col, num_cols, num_rows).last_width == num_cols,
{
    let r = e.resized(num_rows, num_cols);
    overlay::slot_bounds(r.rows, num_rows);
    let m = met(e, row, col, num_cols, num_rows);
    assert forall|i: int, j: int| 0 <= i < j < m.rows.len() implies (#[trigger] m.rows[i]).0 < (
    #[trigger] m.rows[j]).0 by {
        assert(r.rows[i].0 < r.rows[j].0);
    }
    assert forall|i: int| 0 <= i < m.rows.len() implies (#[trigger] m.rows[i]).1.cells.len()
        == m.last_width && m.rows[i].1.row_num == m.rows[i].0 by {
        assert(m.rows[i] == r.rows[i]);
    }
}

proof fn met_rows(
    e: EngineView,
    row: usize,
    col: usize,
    num_cols: usize,
    num_rows: usize,
    k: usize,
)
    requires
        in_shape(e),
        e.display_preference != DisplayPreference::Never,
    ensures
        holds(met(e, row, col, num_cols, num_rows), k) == survives(e, k, num_cols, num_rows),
        survives(e, k, num_cols, num_rows) ==> cells_of(met(e, row, col, num_cols, num_rows), k)
            == cells_of(e, k),
{
    let r = e.resized(num_rows, num_cols);
    overlay::slot_bounds(r.rows, num_rows);
    let m = met(e, row, col, num_cols, num_rows);
    met_in_shape(e, row, col, num_cols, num_rows);
    let s = overlay::slot(r.rows, num_rows);
    if holds(m, k) {
        let i = choose|i: int| 0 <= i < m.rows.len() && (#[trigger] m.rows[i]).0 == k;
        assert(m.rows[i].0 == k);
        assert(m.rows[i] == r.rows[i]);
        assert(r.rows == e.rows);
        assert(r.rows[i].0 < num_rows);
        named(e, i);
        named(m, i);
    }
    if survives(e, k, num_cols, num_rows) {
        let i = choose|i: int| 0 <= i < e.rows.len() && (#[trigger] e.rows[i]).0 == k;
        assert(e.rows[i].0 == k);
        assert(i < s);
        assert(m.rows[i] == e.rows[i]);
        named(e, i);
        named(m, i);
    }
}

/// Setting the cells of a row concerns this row alone.
#[verifier::spinoff_prover]
#[verifier::rlimit(60)]
proof fn row_set(
    e: EngineView,
    row: usize,
    now: Instant,
    cells: Seq<OverlayCellView>,
    k: usize,
)
    requires
        in_shape(e),
        cells.len() == e.last_width,
    ensures
        in_shape(e.with_cells(row, now, cells)),
        k == row ==> holds(e.with_cells(row, now, cells), k) && cells_of(
            e.with_cells(row, now, cells),
            k,
        ) == cells,
        k != row ==> holds(e.with_cells(row, now, cells), k) == holds(e, k),
        k != row && holds(e, k) ==> cells_of(e.with_cells(row, now, cells), k) == cells_of(e, k),
{
    let view = OverlayRowView { cells, ..e.row_cells(row, now) };
    let after = e.with_cells(row, now, cells);
    let s = overlay::slot(e.rows, row);
    let had = overlay::has_row(e.rows, row);
    overlay::slot_bounds(e.rows, row);
    overlay::with_row_reads_back(e.rows, row, view);
    if had {
        assert(e.rows[s].1.row_num == e.rows[s].0);
    }
    assert(view.row_num == row);
    assert forall|i: int| 0 <= i < after.rows.len() implies (#[trigger] after.rows[i]).1.cells.len()
        == after.last_width && after.rows[i].1.row_num == after.rows[i].0 by {
        if i == s {
        } else if had || i < s {
            assert(after.rows[i] == e.rows[i]);
        } else {
            assert(after.rows[i] == e.rows[i - 1]);
        }
    }
    named(after, s);
    if k != row {
        if holds(after, k) {
            let i = choose|i: int| 0 <= i < after.rows.len() && (#[trigger] after.rows[i]).0 == k;
            assert(after.rows[i].0 == k);
            let j = if had || i < s {
                i
            } else {
                i - 1
            };
            assert(after.rows[i] == e.rows[j]);
            named(after, i);
            named(e, j);
        }
        if holds(e, k) {
            let i = choose|i: int| 0 <= i < e.rows.len() && (#[trigger] e.rows[i]).0 == k;
            assert(e.rows[i].0 == k);
            let j = if had || i < s {
                i
            } else {
                i + 1
            };
            assert(after.rows[j] == e.rows[i]);
            named(after, j);
            named(e, i);
        }
    }
}

/// A keystroke concerns the row of the cursor alone. On a screen of other dimensions than before all
/// predictions are withdrawn, and rows below the screen are dropped; every other row is as it was.
pub proof fn other_rows_are_kept(
    e: EngineView,
    ch: char,
    row: usize,
    col: usize,
    num_cols: usize,
    num_rows: usize,
    now: Instant,
    k: usize,
)
    requires
        e.display_preference != DisplayPreference::Never,
        in_shape(e),
        k != row,
    ensures
        ({
            let after = e.typed(ch, row, col, num_cols, num_rows, now);
            &&& in_shape(after)
            &&& holds(after, k) <==> survives(e, k, num_cols, num_rows)
            &&& holds(after, k) ==> cells_of(after, k) == cells_of(e, k)
        }),
{
    let m = met(e, row, col, num_cols, num_rows);
    let after = e.typed(ch, row, col, num_cols, num_rows, now);
    met_in_shape(e, row, col, num_cols, num_rows);
    met_rows(e, row, col, num_cols, num_rows, k);
    if ch as int == 127 {
        if col > 0 {
            let q = m.cursor_moved((col - 1) as usize);
            let cells = engine::row_deleted(
                q.row_cells(row, now).cells,
                col as int,
                q.predict_overwrite,
                q.prediction_epoch,
                (q.local_frame_sent + 1) as u64,
                now,
            );
            overlay::slot_bounds(q.rows, row);
            same_rows(m, q, k);
            row_set(q, row, now, cells, k);
        }
    } else if 32 <= ch as int <= 126 {
        let q = if col + 1 >= m.last_width {
            m.tentative()
        } else {
            m
        };
        let cells = engine::row_inserted(
            q.row_cells(row, now).cells,
            ch,
            col as int,
            if q.predict_overwrite {
                col as int
            } else {
                q.last_width - 1
            },
            q.prediction_epoch,
            (q.local_frame_sent + 1) as u64,
            now,
        );
        overlay::slot_bounds(q.rows, row);
        same_rows(m, q, k);
        row_set(q, row, now, cells, k);
        same_rows(q.with_cells(row, now, cells), after, k);
    } else {
        same_rows(m, after, k);
    }
}

/// What is held for a row depends on the rows alone.
proof fn same_rows(a: EngineView, b: EngineView, k: usize)
    requires
        a.rows == b.rows,
    ensures
        holds(a, k) == holds(b, k),
        cells_of(a, k) == cells_of(b, k),
{
}

/// The cells that a keystroke finds in the row of the cursor.
proof fn met_cells(
    e: EngineView,
    q: EngineView,
    row: usize,
    col: usize,
    num_cols: usize,
    num_rows: usize,
    now: Instant,
    x: int,
)
    requires
        in_shape(e),
        e.display_preference != DisplayPreference::Never,
        q.rows == met(e, row, col, num_cols, num_rows).rows,
        q.last_width == num_cols,
        0 <= x < num_cols,
    ensures
        ({
            let cells = q.row_cells(row, now).cells;
            &&& cells.len() == num_cols
            &&& cells[x].active == predicted_at(e, row, x, num_cols, num_rows).is_some()
            &&& cells[x].active ==> Some(cells[x]) == predicted_at(e, row, x, num_cols, num_rows)
            &&& survives(e, row, num_cols, num_rows) ==> cells == cells_of(e, row)
            &&& !survives(e, row, num_cols, num_rows) ==> cells[x].col == x
            &&& engine::placed(cells[x], q.prediction_epoch, 0, now).original_contents == history(
                predicted_at(e, row, x, num_cols, num_rows),
            )
        }),
{
    let m = met(e, row, col, num_cols, num_rows);
    met_in_shape(e, row, col, num_cols, num_rows);
    met_rows(e, row, col, num_cols, num_rows, row);
    found(m, row);
    overlay::slot_bounds(m.rows, row);
    let cells = q.row_cells(row, now).cells;
    let was = predicted_at(e, row, x, num_cols, num_rows);
    assert(engine::placed(cells[x], q.prediction_epoch, 0, now).original_contents =~= history(was));
}

/// A printable character is predicted at the cursor and nothing left of it changes. Where text is
/// overwritten, nothing right of it changes either; else every prediction moves one column to the
/// right, a position without one passes a blank on, and nothing is known of the last column.
pub proof fn printable_fills_cells(
    e: EngineView,
    ch: char,
    row: usize,
    col: usize,
    num_cols: usize,
    num_rows: usize,
    now: Instant,
    x: int,
)
    requires
        e.display_preference != DisplayPreference::Never,
        in_shape(e),
        32 <= ch as int <= 126,
        col < num_cols,
        0 <= x < num_cols,
        e.local_frame_sent < u64::MAX,
        e.prediction_epoch < u64::MAX - 1,
    ensures
        ({
            let after = e.typed(ch, row, col, num_cols, num_rows, now);
            let cell = cells_of(after, row)[x];
            let was = predicted_at(e, row, x, num_cols, num_rows);
            let left = predicted_at(e, row, x - 1, num_cols, num_rows);
            &&& in_shape(after)
            &&& holds(after, row)
            &&& cells_of(after, row).len() == num_cols
            &&& cell.col == if survives(e, row, num_cols, num_rows) {
                cells_of(e, row)[x].col as int
            } else {
                x
            }
            &&& x == col ==> fresh_prediction(cell, after, now, was) && !cell.unknown
                && cell.replacement == ch
            &&& x < col || x > col && e.predict_overwrite ==> untouched(
                e,
                after,
                row,
                x,
                num_cols,
                num_rows,
            )
            &&& x > col && !e.predict_overwrite ==> {
                &&& fresh_prediction(cell, after, now, was)
                &&& cell.unknown <==> x == num_cols - 1 || (left.is_some()
                    && left.unwrap().unknown)
                &&& !cell.unknown ==> cell.replacement == match left {
                    Some(c) => c.replacement,
                    None => ' ',
                }
            }
        }),
{
    let m = met(e, row, col, num_cols, num_rows);
    let after = e.typed(ch, row, col, num_cols, num_rows, now);
    met_in_shape(e, row, col, num_cols, num_rows);
    let q = if col + 1 >= m.last_width {
        m.tentative()
    } else {
        m
    };
    let found_cells = q.row_cells(row, now).cells;
    let cells = engine::row_inserted(
        found_cells,
        ch,
        col as int,
        if q.predict_overwrite {
            col as int
        } else {
            q.last_width - 1
        },
        q.prediction_epoch,
        (q.local_frame_sent + 1) as u64,
        now,
    );
    met_cells(e, q, row, col, num_cols, num_rows, now, x);
    if x > 0 {
        met_cells(e, q, row, col, num_cols, num_rows, now, x - 1);
    }
    row_set(q, row, now, cells, row);
    same_rows(q.with_cells(row, now, cells), after, row);
    assert(cells_of(after, row) == cells);
}

/// A backspace takes back what was left of the cursor. Where text is overwritten, a blank is
/// predicted there and nothing else changes; else nothing is known from there to the end of the row,
/// and nothing left of it changes.
pub proof fn backspace_fills_cells(
    e: EngineView,
    ch: char,
    row: usize,
    col: usize,
    num_cols: usize,
    num_rows: usize,
    now: Instant,
    x: int,
)
    requires
        e.display_preference != DisplayPreference::Never,
        in_shape(e),
        ch as int == 127,
        0 < col,
        0 <= x < num_cols,
        e.local_frame_sent < u64::MAX,
        e.prediction_epoch < u64::MAX - 1,
    ensures
        ({
            let after = e.typed(ch, row, col, num_cols, num_rows, now);
            let cell = cells_of(after, row)[x];
            let was = predicted_at(e, row, x, num_cols, num_rows);
            &&& in_shape(after)
            &&& holds(after, row)
            &&& cells_of(after, row).len() == num_cols
            &&& cell.col == if survives(e, row, num_cols, num_rows) {
                cells_of(e, row)[x].col as int
            } else {
                x
            }
            &&& e.predict_overwrite && x == col - 1 ==> fresh_prediction(cell, after, now, was)
                && !cell.unknown && cell.replacement == ' '
            &&& !e.predict_overwrite && x >= col - 1 ==> fresh_prediction(cell, after, now, was)
                && cell.unknown
            &&& x < col - 1 || e.predict_overwrite && x != col - 1 ==> untouched(
                e,
                after,
                row,
                x,
                num_cols,
                num_rows,
            )
        }),
{
    let m = met(e, row, col, num_cols, num_rows);
    let after = e.typed(ch, row, col, num_cols, num_rows, now);
    met_in_shape(e, row, col, num_cols, num_rows);
    let q = m.cursor_moved((col - 1) as usize);
    let found_cells = q.row_cells(row, now).cells;
    let cells = engine::row_deleted(
        found_cells,
        col as int,
        q.predict_overwrite,
        q.prediction_epoch,
        (q.local_frame_sent + 1) as u64,
        now,
    );
    met_cells(e, q, row, col, num_cols, num_rows, now, x);
    row_set(q, row, now, cells, row);
    assert(cells_of(after, row) == cells);
}

/// A backspace at the first column, and a character that is neither printable nor a backspace,
/// change no cell.
pub proof fn other_keys_fill_nothing(
    e: EngineView,
    ch: char,
    row: usize,
    col: usize,
    num_cols: usize,
    num_rows: usize,
    now: Instant,
)
    requires
        e.display_preference != DisplayPreference::Never,
        in_shape(e),
        ch as int > 127 || (ch as int) < 32 || ch as int == 127 && col == 0,
    ensures
        ({
            let after = e.typed(ch, row, col, num_cols, num_rows, now);
            &&& in_shape(after)
            &&& holds(after, row) <==> survives(e, row, num_cols, num_rows)
            &&& holds(after, row) ==> cells_of(after, row) == cells_of(e, row)
        }),
{
    let m = met(e, row, col, num_cols, num_rows);
    let after = e.typed(ch, row, col, num_cols, num_rows, now);
    met_in_shape(e, row, col, num_cols, num_rows);
    met_rows(e, row, col, num_cols, num_rows, row);
    same_rows(m, after, row);
}

/// How many epochs a keystroke begins: one where the screen has changed its dimensions, and one more
/// for what cannot be foreseen: a character in the last column, or one that is neither printable nor
/// a backspace.
pub open spec fn epochs_begun(
    e: EngineView,
    ch: char,
    col: usize,
    num_cols: usize,
    num_rows: usize,
) -> int {
    (if same_screen(e, num_cols, num_rows) {
        0int
    } else {
        1
    }) + if 32 <= ch as int <= 126 && col + 1 >= num_cols || (ch as int) < 32 || ch as int > 127 {
        1int
    } else {
        0
    }
}

/// A keystroke begins an epoch just where its effect cannot be foreseen. It follows the screen's
/// dimensions, and leaves the counters and settings alone.
pub proof fn keystroke_begins_epochs(
    e: EngineView,
    ch: char,
    row: usize,
    col: usize,
    num_cols: usize,
    num_rows: usize,
    now: Instant,
)
    requires
        e.display_preference != DisplayPreference::Never,
        e.prediction_epoch < u64::MAX - 1,
    ensures
        ({
            let after = e.typed(ch, row, col, num_cols, num_rows, now);
            &&& after.prediction_epoch == e.prediction_epoch + epochs_begun(
                e,
                ch,
                col,
                num_cols,
                num_rows,
            )
            &&& after.last_height == num_rows
            &&& after.last_width == num_cols
            &&& after.local_frame_sent == e.local_frame_sent
            &&& after.local_frame_acked == e.local_frame_acked
            &&& after.local_frame_late_acked == e.local_frame_late_acked
            &&& after.confirmed_epoch == e.confirmed_epoch
            &&& after.glitch_trigger == e.glitch_trigger
            &&& after.last_quick_confirmation == e.last_quick_confirmation
            &&& after.send_interval_ms == e.send_interval_ms
            &&& after.display_preference == e.display_preference
            &&& after.predict_overwrite == e.predict_overwrite
        }),
{
}

/// The latest cursor prediction follows the keystroke: a printable character moves it one column to
/// the right of the cursor, a backspace one to the left. It is the latest one of the current epoch,
/// or, where that epoch has none, a new one at the cursor's row; all earlier ones stay.
pub proof fn cursor_follows(
    e: EngineView,
    ch: char,
    row: usize,
    col: usize,
    num_cols: usize,
    num_rows: usize,
    now: Instant,
)
    requires
        e.display_preference != DisplayPreference::Never,
        e.local_frame_sent < u64::MAX,
        e.prediction_epoch < u64::MAX - 1,
        32 <= ch as int <= 126 ==> col < num_cols,
    ensures
        ({
            let after = e.typed(ch, row, col, num_cols, num_rows, now);
            let same = same_screen(e, num_cols, num_rows);
            let goes_on = same && e.cursors.len() > 0 && e.cursors.last().tentative_until_epoch
                == e.prediction_epoch;
            let moves = 32 <= ch as int <= 126 || ch as int == 127 && col > 0;
            let last = after.cursors.last();
            let earlier = if !same {
                Seq::<ConditionalCursorMove>::empty()
            } else if goes_on {
                e.cursors.drop_last()
            } else {
                e.cursors
            };
            &&& after.cursors.len() > 0
            &&& after.cursors.drop_last() == earlier
            &&& last.col == if 32 <= ch as int <= 126 {
                col + 1
            } else if ch as int == 127 && col > 0 {
                col - 1
            } else if goes_on {
                e.cursors.last().col as int
            } else {
                col as int
            }
            &&& moves || !goes_on ==> last.expiration_frame == e.local_frame_sent + 1
            &&& !moves && goes_on ==> last == e.cursors.last()
            &&& goes_on ==> last.row == e.cursors.last().row && last.active
                == e.cursors.last().active && last.tentative_until_epoch == e.prediction_epoch
            &&& !goes_on ==> last.row == row && last.active && last.tentative_until_epoch
                == e.prediction_epoch + if same {
                0int
            } else {
                1
            }
        }),
{
    let after = e.typed(ch, row, col, num_cols, num_rows, now);
    let same = same_screen(e, num_cols, num_rows);
    let goes_on = same && e.cursors.len() > 0 && e.cursors.last().tentative_until_epoch
        == e.prediction_epoch;
    let m = met(e, row, col, num_cols, num_rows);
    assert(m.cursors.len() > 0);
    if !same {
        assert(after.cursors.drop_last() =~= Seq::<ConditionalCursorMove>::empty());
    } else if goes_on {
        assert(after.cursors.drop_last() =~= e.cursors.drop_last());
    } else {
        assert(after.cursors.drop_last() =~= e.cursors);
    }
}

/// Whether any cell predicts something.
pub open spec fn anything_predicted(e: EngineView) -> bool {
    exists|i: int, x: int|
        0 <= i < e.rows.len() && 0 <= x < e.rows[i].1.cells.len() && (
        #[trigger] e.rows[i].1.cells[x]).active
}

/// Predictions are shown from a send interval above thirty milliseconds on, until it has fallen to
/// twenty and nothing is predicted any more. They are underlined above eighty milliseconds or after
/// a severe glitch, until the interval has fallen to fifty. Rows below the screen are dropped.
pub proof fn triggers_follow_interval(e: EngineView, num_rows: usize)
    requires
        e.display_preference != DisplayPreference::Never,
        in_shape(e),
    ensures
        ({
            let after = e.culled(num_rows);
            let interval = e.send_interval_ms;
            &&& interval > 30 ==> after.srtt_trigger
            &&& interval <= 20 && !anything_predicted(e) ==> !after.srtt_trigger
            &&& 20 < interval <= 30 || interval <= 20 && anything_predicted(e)
                ==> after.srtt_trigger == e.srtt_trigger
            &&& interval > 80 || e.glitch_trigger > 10 ==> after.flagging
            &&& interval <= 50 && e.glitch_trigger <= 10 ==> !after.flagging
            &&& 50 < interval <= 80 && e.glitch_trigger <= 10 ==> after.flagging == e.flagging
            &&& forall|i: int|
                0 <= i < e.rows.len() ==> ((#[trigger] e.rows[i]).0 < num_rows
                    <==> after.rows.contains(e.rows[i]))
            &&& after.cursors == e.cursors
            &&& after.prediction_epoch == e.prediction_epoch
            &&& after.confirmed_epoch == e.confirmed_epoch
            &&& after.glitch_trigger == e.glitch_trigger
        }),
{
    overlay::prune_keeps_bounds(e.rows, num_rows);
    if anything_predicted(e) {
        let (i, x) = choose|i: int, x: int|
            0 <= i < e.rows.len() && 0 <= x < e.rows[i].1.cells.len() && (
            #[trigger] e.rows[i].1.cells[x]).active;
        assert(e.rows[i].1.cells[x].active);
        assert(e.rows[i].1.any_active());
    }
    if overlay::rows_active(e.rows) {
        let i = choose|i: int| 0 <= i < e.rows.len() && (#[trigger] e.rows[i]).1.any_active();
        let row = e.rows[i].1;
        let x = choose|x: int| 0 <= x < row.cells.len() && (#[trigger] row.cells[x]).active;
        assert(e.rows[i].1.cells[x].active);
    }
}

/// Predictions are shown always, never, or where the link is slow or has just had a glitch.
pub proof fn preference_decides(e: EngineView)
    ensures
        e.display_preference == DisplayPreference::Always ==> e.displays(),
        e.display_preference == DisplayPreference::Never ==> !e.displays(),
        e.display_preference == DisplayPreference::Adaptive ==> (e.displays() <==> e.srtt_trigger
            || e.glitch_trigger > 0),
{
}

/// An engine starts with nothing predicted, in the first epoch, with none confirmed.
pub proof fn engines_start_empty(now: Instant)
    ensures
        ({
            let e = EngineView::fresh(now);
            &&& e.rows.len() == 0 && e.cursors.len() == 0
            &&& e.prediction_epoch == 1 && e.confirmed_epoch == 0
            &&& e.local_frame_sent == 0 && e.local_frame_acked == 0 && e.local_frame_late_acked == 0
            &&& !e.flagging && !e.srtt_trigger && e.glitch_trigger == 0
            &&& e.send_interval_ms == 250
            &&& e.display_preference == DisplayPreference::Adaptive
            &&& !e.predict_overwrite
            &&& !e.displays()
            &&& in_shape(e)
        }),
{
}

/// A keystroke can be predicted unless the counters are at their end, or a printable character would
/// be typed beyond the last column, or a backspace would overwrite beyond it. An engine that never
/// predicts takes every keystroke.
pub proof fn keystrokes_are_taken(e: EngineView, ch: char, col: usize, num_cols: usize)
    ensures
        e.display_preference == DisplayPreference::Never ==> e.takes(ch, col, num_cols),
        e.display_preference != DisplayPreference::Never ==> (e.takes(ch, col, num_cols) <==> {
            &&& e.local_frame_sent < 0xffff_ffff_ffff_ffff
            &&& e.prediction_epoch < 0xffff_ffff_ffff_fffe
            &&& 32 <= ch as int <= 126 ==> col < num_cols
            &&& ch as int == 127 && e.predict_overwrite ==> col <= num_cols
        }),
{
}

} // verus!
