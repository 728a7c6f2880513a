//! What holds of predictions over several steps.

use crate::prediction::engine;
use crate::prediction::engine::DisplayPreference;
use crate::prediction::engine::EngineView;
use crate::prediction::engine::Tally;
use crate::prediction::overlay;
use crate::prediction::overlay::ConditionalCursorMove;
use crate::prediction::overlay::OverlayCellView;
use crate::prediction::overlay::OverlayRowView;
use crate::prediction::overlay::Validity;
use crate::time::Instant;
use vstd::prelude::*;

verus! {

/// An engine that is told never to predict does nothing with keystrokes.
pub proof fn never_predicts(
    e: EngineView,
    ch: char,
    row: usize,
    col: usize,
    num_cols: usize,
    num_rows: usize,
    now: Instant,
)
    requires
        e.display_preference == DisplayPreference::Never,
    ensures
        e.typed(ch, row, col, num_cols, num_rows, now) == e,
        e.culled(num_rows) == e,
        !e.displays(),
{
}

/// Setting the cells of a row makes them readable there.
proof fn cells_read_back(
    e: EngineView,
    row: usize,
    now: Instant,
    cells: Seq<OverlayCellView>,
    i: int,
)
    requires
        overlay::ascending(e.rows),
        0 <= i < cells.len(),
        cells[i].active,
    ensures
        overlay::has_row(e.with_cells(row, now, cells).rows, row),
        e.with_cells(row, now, cells).row_cells(row, now).cells == cells,
        overlay::rows_active(e.with_cells(row, now, cells).rows),
{
    let view = OverlayRowView { cells, ..e.row_cells(row, now) };
    overlay::with_row_reads_back(e.rows, row, view);
    let next = e.with_cells(row, now, cells);
    let s = overlay::slot(e.rows, row);
    overlay::slot_bounds(e.rows, row);
    assert(next.rows[s].1.cells[i].active);
    assert(next.rows[s].1.any_active());
}

/// The engine as a keystroke finds it: resized, culled, with a cursor prediction.
proof fn prepared(e: EngineView, row: usize, col: usize, num_cols: usize, num_rows: usize)
    requires
        overlay::ascending(e.rows),
        engine::rows_regular(e.rows, e.last_width as int),
    ensures
        ({
            let p = e.resized(num_rows, num_cols).culled(num_rows).with_cursor(row, col);
            &&& overlay::ascending(p.rows)
            &&& engine::rows_regular(p.rows, num_cols as int)
            &&& p.last_width == num_cols
            &&& p.cursors.len() > 0
            &&& p.predict_overwrite == e.predict_overwrite
            &&& p.display_preference == e.display_preference
            &&& p.local_frame_sent == e.local_frame_sent
        }),
{
    let r = e.resized(num_rows, num_cols);
    overlay::slot_bounds(r.rows, num_rows);
    let c = r.culled(num_rows);
    assert forall|i: int, j: int| 0 <= i < j < c.rows.len() implies (#[trigger] c.rows[i]).0 < (
    #[trigger] c.rows[j]).0 by {
        assert(r.rows[i].0 < r.rows[j].0);
    }
    assert forall|i: int| 0 <= i < c.rows.len() implies (#[trigger] c.rows[i]).1.cells.len()
        == num_cols by {
        assert(c.rows[i] == r.rows[i]);
    }
}

/// Typing a printable character predicts it at the cursor, and moves the predicted cursor one
/// column to the right.
pub proof fn printable_is_predicted(
    e: EngineView,
    ch: char,
    row: usize,
    col: usize,
    num_cols: usize,
    num_rows: usize,
    now: Instant,
)
    requires
        e.display_preference != DisplayPreference::Never,
        engine::is_printable(ch),
        col < num_cols,
        overlay::ascending(e.rows),
        engine::rows_regular(e.rows, e.last_width as int),
    ensures
        ({
            let after = e.typed(ch, row, col, num_cols, num_rows, now);
            &&& overlay::rows_active(after.rows)
            &&& overlay::has_row(after.rows, row)
            &&& after.row_cells(row, now).cells[col as int].active
            &&& !after.row_cells(row, now).cells[col as int].unknown
            &&& after.row_cells(row, now).cells[col as int].replacement == ch
            &&& after.cursors.len() > 0
            &&& after.cursors.last().col == col + 1
        }),
{
    let p = e.resized(num_rows, num_cols).culled(num_rows).with_cursor(row, col);
    prepared(e, row, col, num_cols, num_rows);
    let q = if col + 1 >= p.last_width {
        p.tentative()
    } else {
        p
    };
    let before = q.row_cells(row, now).cells;
    overlay::slot_bounds(q.rows, row);
    assert(before.len() == num_cols);
    let cells = engine::row_inserted(
        before,
        ch,
        col as int,
        if q.predict_overwrite {
            col as int
        } else {
            q.last_width - 1
        },
        q.prediction_epoch,
        (q.local_frame_sent + 1) as u64,
        now,
    );
    assert(cells[col as int].active);
    cells_read_back(q, row, now, cells, col as int);
}

/// A backspace takes the predicted cursor one column to the left.
pub proof fn backspace_moves_left(
    e: EngineView,
    ch: char,
    row: usize,
    col: usize,
    num_cols: usize,
    num_rows: usize,
    now: Instant,
)
    requires
        e.display_preference != DisplayPreference::Never,
        engine::is_backspace(ch),
        0 < col,
        overlay::ascending(e.rows),
        engine::rows_regular(e.rows, e.last_width as int),
    ensures
        ({
            let after = e.typed(ch, row, col, num_cols, num_rows, now);
            after.cursors.len() > 0 && after.cursors.last().col == col - 1
        }),
{
    prepared(e, row, col, num_cols, num_rows);
}

/// A backspace after a printable character brings the predicted cursor back to where it was.
pub proof fn backspace_undoes_move(
    e: EngineView,
    ch: char,
    del: char,
    row: usize,
    col: usize,
    num_cols: usize,
    num_rows: usize,
    t1: Instant,
    t2: Instant,
)
    requires
        e.display_preference != DisplayPreference::Never,
        engine::is_printable(ch),
        engine::is_backspace(del),
        col < num_cols,
        overlay::ascending(e.rows),
        engine::rows_regular(e.rows, e.last_width as int),
    ensures
        ({
            let typed = e.typed(ch, row, col, num_cols, num_rows, t1);
            let after = typed.typed(
                del,
                row,
                typed.cursors.last().col,
                num_cols,
                num_rows,
                t2,
            );
            after.cursors.len() > 0 && after.cursors.last().col == col
        }),
{
    printable_is_predicted(e, ch, row, col, num_cols, num_rows, t1);
    let typed = e.typed(ch, row, col, num_cols, num_rows, t1);
    typed_keeps_order(e, ch, row, col, num_cols, num_rows, t1);
    backspace_moves_left(typed, del, row, typed.cursors.last().col, num_cols, num_rows, t2);
}

/// A printable keystroke keeps the rows in order and at the width of the screen.
proof fn typed_keeps_order(
    e: EngineView,
    ch: char,
    row: usize,
    col: usize,
    num_cols: usize,
    num_rows: usize,
    now: Instant,
)
    requires
        e.display_preference != DisplayPreference::Never,
        engine::is_printable(ch),
        overlay::ascending(e.rows),
        engine::rows_regular(e.rows, e.last_width as int),
    ensures
        ({
            let after = e.typed(ch, row, col, num_cols, num_rows, now);
            &&& overlay::ascending(after.rows)
            &&& engine::rows_regular(after.rows, after.last_width as int)
            &&& after.display_preference == e.display_preference
        }),
{
    let p = e.resized(num_rows, num_cols).culled(num_rows).with_cursor(row, col);
    prepared(e, row, col, num_cols, num_rows);
    let q = if col + 1 >= p.last_width {
        p.tentative()
    } else {
        p
    };
    let cells = engine::row_inserted(
        q.row_cells(row, now).cells,
        ch,
        col as int,
        if q.predict_overwrite {
            col as int
        } else {
            q.last_width - 1
        },
        q.prediction_epoch,
        (q.local_frame_sent + 1) as u64,
        now,
    );
    let view = OverlayRowView { cells, ..q.row_cells(row, now) };
    overlay::slot_bounds(q.rows, row);
    overlay::with_row_reads_back(q.rows, row, view);
    assert(cells.len() == num_cols);
    let next = overlay::with_row(q.rows, row, view);
    let s = overlay::slot(q.rows, row);
    assert forall|i: int| 0 <= i < next.len() implies (#[trigger] next[i]).1.cells.len()
        == num_cols by {
        if i != s {
            if overlay::has_row(q.rows, row) || i < s {
                assert(next[i] == q.rows[i]);
            } else {
                assert(next[i] == q.rows[i - 1]);
            }
        }
    }
}

/// A reset leaves nothing predicted, neither a character nor a cursor.
pub proof fn reset_clears(e: EngineView)
    ensures
        !overlay::rows_active(e.cleared().rows),
        e.cleared().cursors.len() == 0,
{
}

/// The tally never lowers the confirmed epoch.
proof fn tally_confirms_upwards(
    e: EngineView,
    tally: Tally,
    actual: Seq<Seq<char>>,
    n: int,
    now: Instant,
)
    ensures
        engine::rows_tally(e, tally, actual, n, now).confirmed_epoch >= tally.confirmed_epoch,
    decreases n,
{
    if n > 0 {
        tally_confirms_upwards(e, tally, actual, n - 1, now);
        let cells = e.rows[n - 1].1.cells;
        row_confirms_upwards(
            e,
            engine::rows_tally(e, tally, actual, n - 1, now),
            cells,
            actual[n - 1],
            cells.len() as int,
            now,
        );
    }
}

proof fn row_confirms_upwards(
    e: EngineView,
    tally: Tally,
    cells: Seq<OverlayCellView>,
    actual: Seq<char>,
    n: int,
    now: Instant,
)
    ensures
        engine::row_tally(e, tally, cells, actual, n, now).confirmed_epoch >= tally.confirmed_epoch,
    decreases n,
{
    if n > 0 {
        row_confirms_upwards(e, tally, cells, actual, n - 1, now);
    }
}

/// Epochs only ever advance: no keystroke, validation or reset takes one back.
pub proof fn epochs_advance(
    e: EngineView,
    ch: char,
    row: usize,
    col: usize,
    num_cols: usize,
    num_rows: usize,
    actual: Seq<Seq<char>>,
    now: Instant,
)
    requires
        e.prediction_epoch < u64::MAX - 1,
    ensures
        e.typed(ch, row, col, num_cols, num_rows, now).prediction_epoch >= e.prediction_epoch,
        e.typed(ch, row, col, num_cols, num_rows, now).confirmed_epoch == e.confirmed_epoch,
        e.validated(actual, row, col, now).prediction_epoch >= e.prediction_epoch,
        e.validated(actual, row, col, now).confirmed_epoch >= e.confirmed_epoch,
        e.cleared().prediction_epoch == e.prediction_epoch + 1,
{
    tally_confirms_upwards(
        e,
        Tally {
            glitch_trigger: e.glitch_trigger,
            last_quick_confirmation: e.last_quick_confirmation,
            confirmed_epoch: e.confirmed_epoch,
            should_reset: false,
        },
        actual,
        e.rows.len() as int,
        now,
    );
}

/// One wrong prediction withdraws all of them, and the next epoch begins.
pub proof fn refutation_withdraws_all(
    e: EngineView,
    actual: Seq<Seq<char>>,
    row: usize,
    col: usize,
    now: Instant,
)
    requires
        e.refuted(actual, row, col, now),
        e.prediction_epoch < u64::MAX,
    ensures
        e.validated(actual, row, col, now).rows.len() == 0,
        e.validated(actual, row, col, now).cursors.len() == 0,
        e.validated(actual, row, col, now).prediction_epoch == e.prediction_epoch + 1,
{
}

/// Whether every active cell lies on the screen and waits for its echo.
pub open spec fn all_pending(e: EngineView) -> bool {
    &&& e.last_height > 0
    &&& forall|r: int, i: int|
        0 <= r < e.rows.len() && 0 <= i < e.rows[r].1.cells.len() && (
        #[trigger] e.rows[r].1.cells[i]).active ==> {
            &&& e.rows[r].1.cells[i].col < e.last_width
            &&& e.local_frame_late_acked < e.rows[r].1.cells[i].expiration_frame
        }
}

proof fn pending_row_tally(
    e: EngineView,
    tally: Tally,
    r: int,
    actual: Seq<char>,
    n: int,
    now: Instant,
)
    requires
        all_pending(e),
        0 <= r < e.rows.len(),
        0 <= n <= e.rows[r].1.cells.len(),
        !tally.should_reset,
    ensures
        !engine::row_tally(e, tally, e.rows[r].1.cells, actual, n, now).should_reset,
    decreases n,
{
    if n > 0 {
        pending_row_tally(e, tally, r, actual, n - 1, now);
        assert(e.rows[r].1.cells[n - 1].active ==> e.rows[r].1.cells[n - 1].col < e.last_width);
    }
}

proof fn pending_tally(e: EngineView, tally: Tally, actual: Seq<Seq<char>>, n: int, now: Instant)
    requires
        all_pending(e),
        0 <= n <= e.rows.len(),
        !tally.should_reset,
    ensures
        !engine::rows_tally(e, tally, actual, n, now).should_reset,
    decreases n,
{
    if n > 0 {
        pending_tally(e, tally, actual, n - 1, now);
        pending_row_tally(
            e,
            engine::rows_tally(e, tally, actual, n - 1, now),
            n - 1,
            actual[n - 1],
            e.rows[n - 1].1.cells.len() as int,
            now,
        );
    }
}

/// A prediction is shown until its echo is acknowledged: while all are pending, and the latest
/// cursor is not refuted, the server's state changes none of them.
pub proof fn pending_predictions_stay(
    e: EngineView,
    actual: Seq<Seq<char>>,
    row: usize,
    col: usize,
    now: Instant,
)
    requires
        all_pending(e),
        e.cursors.len() > 0 ==> e.cursor_stands(e.cursors.last(), row, col)
            != Validity::IncorrectOrExpired,
    ensures
        e.validated(actual, row, col, now).rows == e.rows,
{
    pending_tally(
        e,
        Tally {
            glitch_trigger: e.glitch_trigger,
            last_quick_confirmation: e.last_quick_confirmation,
            confirmed_epoch: e.confirmed_epoch,
            should_reset: false,
        },
        actual,
        e.rows.len() as int,
        now,
    );
    let after = e.validated(actual, row, col, now);
    assert(!e.refuted(actual, row, col, now));
    assert forall|r: int| 0 <= r < e.rows.len() implies #[trigger] after.rows[r] == e.rows[r] by {
        let cells = e.rows[r].1.cells;
        assert forall|i: int| 0 <= i < cells.len() implies engine::settled(
            #[trigger] cells[i],
            engine::cell_validity(e, cells, actual[r], i),
        ) == cells[i] by {
            assert(e.rows[r].1.cells[i].active ==> e.rows[r].1.cells[i].col < e.last_width);
        }
        assert(engine::row_settled(e, e.rows[r].1, actual[r]).cells =~= cells);
    }
    assert(after.rows =~= e.rows);
}

/// After an epoch was killed none of its predictions is left: no cell, and no cursor but the one
/// predicted in their place.
pub proof fn killed_epochs_are_gone(e: EngineView, epoch: u64, row: usize, col: usize)
    requires
        epoch > 0,
    ensures
        ({
            let after = e.epoch_killed(epoch, row, col);
            &&& forall|i: int, x: int|
                0 <= i < after.rows.len() && 0 <= x < after.rows[i].1.cells.len() && (
                #[trigger] after.rows[i].1.cells[x]).active
                    ==> after.rows[i].1.cells[x].tentative_until_epoch != epoch
            &&& after.cursors.len() > 0
            &&& forall|i: int|
                0 <= i < after.cursors.len() - 1 ==> (#[trigger] after.cursors[i]).tentative_until_epoch
                    != epoch
        }),
{
    let after = e.epoch_killed(epoch, row, col);
    let keep = |c: ConditionalCursorMove| c.tentative_until_epoch <= epoch - 1;
    let kept = e.cursors.filter(keep);
    assert forall|i: int| 0 <= i < after.cursors.len() - 1 implies (
    #[trigger] after.cursors[i]).tentative_until_epoch != epoch by {
        assert(after.cursors[i] == kept[i]);
        e.cursors.lemma_filter_pred(keep, i);
    }
}

} // verus!
