//! What the server's state does to the predictions, cell by cell.

use crate::prediction::engine;
use crate::prediction::engine::EngineView;
use crate::prediction::engine::Tally;
use crate::prediction::overlay::ConditionalCursorMove;
use crate::prediction::overlay::OverlayCellView;
use crate::prediction::overlay::Validity;
use crate::time::Instant;
use vstd::prelude::*;

verus! {

/// Whether a cell is on the screen.
pub open spec fn on_screen(e: EngineView, cell: OverlayCellView) -> bool {
    e.last_height > 0 && cell.col < e.last_width
}

/// Whether the server has answered what a cell predicts.
pub open spec fn answered(e: EngineView, cell: OverlayCellView) -> bool {
    cell.expiration_frame <= e.local_frame_late_acked
}

/// Whether a cell is wrong: it has left the screen, or the server has answered with another
/// character than the one that is predicted. The epoch of the prediction does not matter.
pub open spec fn wrong(e: EngineView, cell: OverlayCellView, shown: char) -> bool {
    cell.active && (!on_screen(e, cell) || answered(e, cell) && !cell.unknown && shown
        != cell.replacement)
}

/// Whether a cell speaks for its epoch: the server has answered with the very character that is
/// predicted, which is not a blank, and not one that was predicted here before.
pub open spec fn credited(e: EngineView, cell: OverlayCellView, shown: char) -> bool {
    &&& cell.active
    &&& on_screen(e, cell)
    &&& answered(e, cell)
    &&& !cell.unknown
    &&& shown == cell.replacement
    &&& shown != ' '
    &&& forall|i: int|
        0 <= i < cell.original_contents.len() ==> #[trigger] cell.original_contents[i] != shown
}

/// Whether a cell has waited for its answer for so many milliseconds.
pub open spec fn waiting(e: EngineView, cell: OverlayCellView, now: Instant, millis: nat) -> bool {
    &&& cell.active
    &&& on_screen(e, cell)
    &&& !answered(e, cell)
    &&& now.nanos >= cell.prediction_time.nanos + millis * 1_000_000
}

/// Whether a cell of the first `n` of a row is wrong.
spec fn row_wrong(e: EngineView, cells: Seq<OverlayCellView>, shown: Seq<char>, n: int) -> bool {
    exists|x: int| 0 <= x < n && wrong(e, #[trigger] cells[x], shown[x])
}

/// Whether some cell is wrong, where the server shows the characters `shown`.
pub open spec fn any_wrong(e: EngineView, shown: Seq<Seq<char>>) -> bool {
    exists|i: int, x: int|
        0 <= i < e.rows.len() && 0 <= x < e.rows[i].1.cells.len() && wrong(
            e,
            #[trigger] e.rows[i].1.cells[x],
            shown[i][x],
        )
}

/// Whether the latest cursor prediction is wrong, where the server's cursor is at a position.
pub open spec fn cursor_wrong(e: EngineView, row: usize, col: usize) -> bool {
    e.cursors.len() > 0 && {
        let c = e.cursors.last();
        c.active && (c.row >= e.last_height || c.col >= e.last_width || c.expiration_frame
            <= e.local_frame_late_acked && (c.row != row || c.col != col))
    }
}

proof fn credit(e: EngineView, cells: Seq<OverlayCellView>, shown: Seq<char>, x: int)
    ensures
        credited(e, cells[x], shown[x]) == (engine::cell_validity(e, cells, shown, x)
            is Correct),
        wrong(e, cells[x], shown[x]) == (engine::cell_validity(e, cells, shown, x)
            is IncorrectOrExpired),
{
    let old = cells[x].original_contents;
    if old.contains(shown[x]) {
        let i = choose|i: int| 0 <= i < old.len() && old[i] == shown[x];
        assert(old[i] == shown[x]);
    }
    if !credited(e, cells[x], shown[x]) && exists|i: int|
        0 <= i < old.len() && #[trigger] old[i] == shown[x] {
        assert(old.contains(shown[x]));
    }
}

proof fn row_resets(
    e: EngineView,
    tally: Tally,
    cells: Seq<OverlayCellView>,
    shown: Seq<char>,
    n: int,
    now: Instant,
)
    requires
        0 <= n <= cells.len(),
    ensures
        engine::row_tally(e, tally, cells, shown, n, now).should_reset == (tally.should_reset
            || row_wrong(e, cells, shown, n)),
    decreases n,
{
    if n > 0 {
        row_resets(e, tally, cells, shown, n - 1, now);
        credit(e, cells, shown, n - 1);
        if row_wrong(e, cells, shown, n) {
            let x = choose|x: int| 0 <= x < n && wrong(e, #[trigger] cells[x], shown[x]);
            assert(wrong(e, cells[x], shown[x]));
            if x < n - 1 {
                assert(row_wrong(e, cells, shown, n - 1));
            }
        }
        if row_wrong(e, cells, shown, n - 1) {
            let x = choose|x: int| 0 <= x < n - 1 && wrong(e, #[trigger] cells[x], shown[x]);
            assert(wrong(e, cells[x], shown[x]));
            assert(row_wrong(e, cells, shown, n));
        }
        if wrong(e, cells[n - 1], shown[n - 1]) {
            assert(row_wrong(e, cells, shown, n));
        }
    }
}

/// Whether a cell of the first `n` rows is wrong.
spec fn rows_wrong(e: EngineView, shown: Seq<Seq<char>>, n: int) -> bool {
    exists|i: int|
        0 <= i < n && row_wrong(
            e,
            (#[trigger] e.rows[i]).1.cells,
            shown[i],
            e.rows[i].1.cells.len() as int,
        )
}

proof fn rows_reset(e: EngineView, tally: Tally, shown: Seq<Seq<char>>, n: int, now: Instant)
    requires
        0 <= n <= e.rows.len(),
    ensures
        engine::rows_tally(e, tally, shown, n, now).should_reset == (tally.should_reset
            || rows_wrong(e, shown, n)),
    decreases n,
{
    if n > 0 {
        rows_reset(e, tally, shown, n - 1, now);
        let cells = e.rows[n - 1].1.cells;
        row_resets(
            e,
            engine::rows_tally(e, tally, shown, n - 1, now),
            cells,
            shown[n - 1],
            cells.len() as int,
            now,
        );
        if rows_wrong(e, shown, n) {
            let i = choose|i: int|
                0 <= i < n && row_wrong(
                    e,
                    (#[trigger] e.rows[i]).1.cells,
                    shown[i],
                    e.rows[i].1.cells.len() as int,
                );
            assert(e.rows[i].1.cells == e.rows[i].1.cells);
            if i < n - 1 {
                assert(rows_wrong(e, shown, n - 1));
            }
        }
        if rows_wrong(e, shown, n - 1) {
            let i = choose|i: int|
                0 <= i < n - 1 && row_wrong(
                    e,
                    (#[trigger] e.rows[i]).1.cells,
                    shown[i],
                    e.rows[i].1.cells.len() as int,
                );
            assert(e.rows[i].1.cells == e.rows[i].1.cells);
            assert(rows_wrong(e, shown, n));
        }
        if row_wrong(e, cells, shown[n - 1], cells.len() as int) {
            assert(e.rows[n - 1].1.cells == cells);
            assert(rows_wrong(e, shown, n));
        }
    }
}

/// The tally that judging begins with.
spec fn blank_tally(e: EngineView) -> Tally {
    Tally {
        glitch_trigger: e.glitch_trigger,
        last_quick_confirmation: e.last_quick_confirmation,
        confirmed_epoch: e.confirmed_epoch,
        should_reset: false,
    }
}

proof fn refuted_iff(
    e: EngineView,
    shown: Seq<Seq<char>>,
    row: usize,
    col: usize,
    now: Instant,
)
    ensures
        e.refuted(shown, row, col, now) == (any_wrong(e, shown) || cursor_wrong(e, row, col)),
{
    let n = e.rows.len() as int;
    rows_reset(e, blank_tally(e), shown, n, now);
    if any_wrong(e, shown) {
        let (i, x) = choose|i: int, x: int|
            0 <= i < e.rows.len() && 0 <= x < e.rows[i].1.cells.len() && wrong(
                e,
                #[trigger] e.rows[i].1.cells[x],
                shown[i][x],
            );
        let cells = e.rows[i].1.cells;
        assert(wrong(e, cells[x], shown[i][x]));
        assert(row_wrong(e, cells, shown[i], cells.len() as int));
        assert(rows_wrong(e, shown, n));
    }
    if rows_wrong(e, shown, n) {
        let i = choose|i: int|
            0 <= i < n && row_wrong(
                e,
                (#[trigger] e.rows[i]).1.cells,
                shown[i],
                e.rows[i].1.cells.len() as int,
            );
        let cells = e.rows[i].1.cells;
        assert(row_wrong(e, cells, shown[i], cells.len() as int));
        let x = choose|x: int|
            0 <= x < cells.len() && wrong(e, #[trigger] cells[x], shown[i][x]);
        assert(wrong(e, e.rows[i].1.cells[x], shown[i][x]));
        assert(any_wrong(e, shown));
    }
}

/// A single wrong prediction withdraws all of them and begins the next epoch: a cell off the screen,
/// or one whose answer is another character than predicted, of whatever epoch it is; or the latest
/// cursor, off the screen or answered with another position.
pub proof fn wrong_prediction_withdraws_all(
    e: EngineView,
    shown: Seq<Seq<char>>,
    row: usize,
    col: usize,
    now: Instant,
)
    requires
        any_wrong(e, shown) || cursor_wrong(e, row, col),
        e.prediction_epoch < u64::MAX,
    ensures
        ({
            let after = e.validated(shown, row, col, now);
            &&& after.rows.len() == 0
            &&& after.cursors.len() == 0
            &&& after.prediction_epoch == e.prediction_epoch + 1
        }),
{
    refuted_iff(e, shown, row, col, now);
}

/// Where nothing is wrong, what the server has answered is no longer predicted, and all else stays:
/// cells and cursors that wait for their answer, and the epoch.
pub proof fn right_predictions_settle(
    e: EngineView,
    shown: Seq<Seq<char>>,
    row: usize,
    col: usize,
    now: Instant,
)
    requires
        !any_wrong(e, shown),
        !cursor_wrong(e, row, col),
    ensures
        ({
            let after = e.validated(shown, row, col, now);
            &&& after.prediction_epoch == e.prediction_epoch
            &&& after.rows.len() == e.rows.len()
            &&& forall|i: int|
                0 <= i < e.rows.len() ==> (#[trigger] after.rows[i]).0 == e.rows[i].0
                    && after.rows[i].1.row_num == e.rows[i].1.row_num
                    && after.rows[i].1.cells.len() == e.rows[i].1.cells.len()
            &&& forall|i: int, x: int|
                0 <= i < e.rows.len() && 0 <= x < e.rows[i].1.cells.len() ==> {
                    let cell = e.rows[i].1.cells[x];
                    let now_there = #[trigger] after.rows[i].1.cells[x];
                    if cell.active && answered(e, cell) {
                        !now_there.active && now_there.col == cell.col
                            && now_there.original_contents.len() == 0
                    } else {
                        now_there == cell
                    }
                }
            &&& after.cursors == e.cursors.filter(
                |c: ConditionalCursorMove|
                    c.active && c.row < e.last_height && c.col < e.last_width && c.expiration_frame
                        > e.local_frame_late_acked,
            )
        }),
{
    refuted_iff(e, shown, row, col, now);
    let after = e.validated(shown, row, col, now);
    assert forall|i: int, x: int|
        0 <= i < e.rows.len() && 0 <= x < e.rows[i].1.cells.len() implies ({
        let cell = e.rows[i].1.cells[x];
        let now_there = #[trigger] after.rows[i].1.cells[x];
        if cell.active && answered(e, cell) {
            !now_there.active && now_there.col == cell.col && now_there.original_contents.len() == 0
        } else {
            now_there == cell
        }
    }) by {
        let cells = e.rows[i].1.cells;
        assert(!wrong(e, e.rows[i].1.cells[x], shown[i][x]));
        credit(e, cells, shown[i], x);
        assert(after.rows[i].1.cells[x] == engine::settled(
            cells[x],
            engine::cell_validity(e, cells, shown[i], x),
        ));
    }
    let stands = |c: ConditionalCursorMove|
        e.cursor_stands(c, row, col) == Validity::Pending;
    let waits = |c: ConditionalCursorMove|
        c.active && c.row < e.last_height && c.col < e.last_width && c.expiration_frame
            > e.local_frame_late_acked;
    assert(stands =~= waits);
}

/// The server's state leaves the frame counters, the triggers of the link, the settings and the
/// dimensions of the screen alone.
pub proof fn verdict_keeps_settings(
    e: EngineView,
    shown: Seq<Seq<char>>,
    row: usize,
    col: usize,
    now: Instant,
)
    ensures
        ({
            let after = e.validated(shown, row, col, now);
            &&& after.local_frame_sent == e.local_frame_sent
            &&& after.local_frame_acked == e.local_frame_acked
            &&& after.local_frame_late_acked == e.local_frame_late_acked
            &&& after.flagging == e.flagging
            &&& after.srtt_trigger == e.srtt_trigger
            &&& after.send_interval_ms == e.send_interval_ms
            &&& after.display_preference == e.display_preference
            &&& after.predict_overwrite == e.predict_overwrite
            &&& after.last_height == e.last_height
            &&& after.last_width == e.last_width
        }),
{
}

proof fn row_confirms(
    e: EngineView,
    tally: Tally,
    cells: Seq<OverlayCellView>,
    shown: Seq<char>,
    n: int,
    now: Instant,
)
    requires
        0 <= n <= cells.len(),
    ensures
        ({
            let t = engine::row_tally(e, tally, cells, shown, n, now);
            &&& t.confirmed_epoch >= tally.confirmed_epoch
            &&& forall|x: int|
                0 <= x < n && credited(e, #[trigger] cells[x], shown[x]) ==> t.confirmed_epoch
                    >= cells[x].tentative_until_epoch
            &&& t.confirmed_epoch == tally.confirmed_epoch || exists|x: int|
                0 <= x < n && credited(e, #[trigger] cells[x], shown[x]) && t.confirmed_epoch
                    == cells[x].tentative_until_epoch
        }),
    decreases n,
{
    if n > 0 {
        row_confirms(e, tally, cells, shown, n - 1, now);
        credit(e, cells, shown, n - 1);
        let before = engine::row_tally(e, tally, cells, shown, n - 1, now);
        let t = engine::row_tally(e, tally, cells, shown, n, now);
        if t.confirmed_epoch != before.confirmed_epoch {
            assert(credited(e, cells[n - 1], shown[n - 1]));
        } else if before.confirmed_epoch != tally.confirmed_epoch {
            let x = choose|x: int|
                0 <= x < n - 1 && credited(e, #[trigger] cells[x], shown[x])
                    && before.confirmed_epoch == cells[x].tentative_until_epoch;
            assert(credited(e, cells[x], shown[x]));
        }
    }
}

proof fn rows_confirm(e: EngineView, tally: Tally, shown: Seq<Seq<char>>, n: int, now: Instant)
    requires
        0 <= n <= e.rows.len(),
    ensures
        ({
            let t = engine::rows_tally(e, tally, shown, n, now);
            &&& t.confirmed_epoch >= tally.confirmed_epoch
            &&& forall|i: int, x: int|
                0 <= i < n && 0 <= x < e.rows[i].1.cells.len() && credited(
                    e,
                    #[trigger] e.rows[i].1.cells[x],
                    shown[i][x],
                ) ==> t.confirmed_epoch >= e.rows[i].1.cells[x].tentative_until_epoch
            &&& t.confirmed_epoch == tally.confirmed_epoch || exists|i: int, x: int|
                0 <= i < n && 0 <= x < e.rows[i].1.cells.len() && credited(
                    e,
                    #[trigger] e.rows[i].1.cells[x],
                    shown[i][x],
                ) && t.confirmed_epoch == e.rows[i].1.cells[x].tentative_until_epoch
        }),
    decreases n,
{
    if n > 0 {
        rows_confirm(e, tally, shown, n - 1, now);
        let cells = e.rows[n - 1].1.cells;
        let before = engine::rows_tally(e, tally, shown, n - 1, now);
        let t = engine::rows_tally(e, tally, shown, n, now);
        row_confirms(e, before, cells, shown[n - 1], cells.len() as int, now);
        if t.confirmed_epoch != before.confirmed_epoch {
            let x = choose|x: int|
                0 <= x < cells.len() && credited(e, #[trigger] cells[x], shown[n - 1][x])
                    && t.confirmed_epoch == cells[x].tentative_until_epoch;
            assert(credited(e, e.rows[n - 1].1.cells[x], shown[n - 1][x]));
        } else if before.confirmed_epoch != tally.confirmed_epoch {
            let (i, x) = choose|i: int, x: int|
                0 <= i < n - 1 && 0 <= x < e.rows[i].1.cells.len() && credited(
                    e,
                    #[trigger] e.rows[i].1.cells[x],
                    shown[i][x],
                ) && before.confirmed_epoch == e.rows[i].1.cells[x].tentative_until_epoch;
            assert(credited(e, e.rows[i].1.cells[x], shown[i][x]));
        }
    }
}

/// The confirmed epoch is the highest one that a prediction has spoken for, if it is higher than
/// before: a right guess confirms its whole epoch, and nothing else confirms one.
pub proof fn right_guess_confirms_epoch(
    e: EngineView,
    shown: Seq<Seq<char>>,
    row: usize,
    col: usize,
    now: Instant,
)
    ensures
        ({
            let after = e.validated(shown, row, col, now);
            &&& after.confirmed_epoch >= e.confirmed_epoch
            &&& forall|i: int, x: int|
                0 <= i < e.rows.len() && 0 <= x < e.rows[i].1.cells.len() && credited(
                    e,
                    #[trigger] e.rows[i].1.cells[x],
                    shown[i][x],
                ) ==> after.confirmed_epoch >= e.rows[i].1.cells[x].tentative_until_epoch
            &&& after.confirmed_epoch == e.confirmed_epoch || exists|i: int, x: int|
                0 <= i < e.rows.len() && 0 <= x < e.rows[i].1.cells.len() && credited(
                    e,
                    #[trigger] e.rows[i].1.cells[x],
                    shown[i][x],
                ) && after.confirmed_epoch == e.rows[i].1.cells[x].tentative_until_epoch
        }),
{
    rows_confirm(e, blank_tally(e), shown, e.rows.len() as int, now);
}

/// Whether some cell has waited for its answer for so many milliseconds.
pub open spec fn any_waiting(e: EngineView, now: Instant, millis: nat) -> bool {
    exists|i: int, x: int|
        0 <= i < e.rows.len() && 0 <= x < e.rows[i].1.cells.len() && waiting(
            e,
            #[trigger] e.rows[i].1.cells[x],
            now,
            millis,
        )
}

/// Whether some cell speaks for its epoch.
pub open spec fn any_credited(e: EngineView, shown: Seq<Seq<char>>) -> bool {
    exists|i: int, x: int|
        0 <= i < e.rows.len() && 0 <= x < e.rows[i].1.cells.len() && credited(
            e,
            #[trigger] e.rows[i].1.cells[x],
            shown[i][x],
        )
}

/// Whether some cell speaks for its epoch within a quarter of a second.
pub open spec fn any_quick(e: EngineView, shown: Seq<Seq<char>>, now: Instant) -> bool {
    exists|i: int, x: int|
        0 <= i < e.rows.len() && 0 <= x < e.rows[i].1.cells.len() && credited(
            e,
            #[trigger] e.rows[i].1.cells[x],
            shown[i][x],
        ) && now.nanos < e.rows[i].1.cells[x].prediction_time.nanos + 250_000_000
}

spec fn row_waiting(
    e: EngineView,
    cells: Seq<OverlayCellView>,
    now: Instant,
    millis: nat,
    n: int,
) -> bool {
    exists|x: int| 0 <= x < n && waiting(e, #[trigger] cells[x], now, millis)
}

/// What the glitch trigger is after cells have waited.
spec fn raised(trigger: u32, severe: bool, slow: bool) -> u32 {
    if severe {
        20
    } else if slow && trigger < 10 {
        10
    } else {
        trigger
    }
}

proof fn row_waits(
    e: EngineView,
    cells: Seq<OverlayCellView>,
    now: Instant,
    millis: nat,
    n: int,
)
    requires
        n > 0,
    ensures
        row_waiting(e, cells, now, millis, n) == (row_waiting(e, cells, now, millis, n - 1)
            || waiting(e, cells[n - 1], now, millis)),
{
    if row_waiting(e, cells, now, millis, n) {
        let x = choose|x: int| 0 <= x < n && waiting(e, #[trigger] cells[x], now, millis);
        assert(waiting(e, cells[x], now, millis));
        if x < n - 1 {
            assert(row_waiting(e, cells, now, millis, n - 1));
        }
    }
    if row_waiting(e, cells, now, millis, n - 1) {
        let x = choose|x: int| 0 <= x < n - 1 && waiting(e, #[trigger] cells[x], now, millis);
        assert(waiting(e, cells[x], now, millis));
        assert(row_waiting(e, cells, now, millis, n));
    }
    if waiting(e, cells[n - 1], now, millis) {
        assert(row_waiting(e, cells, now, millis, n));
    }
}

proof fn row_raises(
    e: EngineView,
    tally: Tally,
    cells: Seq<OverlayCellView>,
    shown: Seq<char>,
    n: int,
    now: Instant,
)
    requires
        0 <= n <= cells.len(),
        forall|x: int| 0 <= x < cells.len() ==> !credited(e, #[trigger] cells[x], shown[x]),
    ensures
        ({
            let t = engine::row_tally(e, tally, cells, shown, n, now);
            &&& t.glitch_trigger == raised(
                tally.glitch_trigger,
                row_waiting(e, cells, now, 5000, n),
                row_waiting(e, cells, now, 250, n),
            )
            &&& t.last_quick_confirmation == tally.last_quick_confirmation
        }),
    decreases n,
{
    if n > 0 {
        row_raises(e, tally, cells, shown, n - 1, now);
        credit(e, cells, shown, n - 1);
        row_waits(e, cells, now, 5000, n);
        row_waits(e, cells, now, 250, n);
        assert(!credited(e, cells[n - 1], shown[n - 1]));
    }
}

spec fn rows_waiting(e: EngineView, now: Instant, millis: nat, n: int) -> bool {
    exists|i: int|
        0 <= i < n && row_waiting(
            e,
            (#[trigger] e.rows[i]).1.cells,
            now,
            millis,
            e.rows[i].1.cells.len() as int,
        )
}

proof fn rows_wait(e: EngineView, now: Instant, millis: nat, n: int)
    requires
        n > 0,
    ensures
        rows_waiting(e, now, millis, n) == (rows_waiting(e, now, millis, n - 1) || row_waiting(
            e,
            e.rows[n - 1].1.cells,
            now,
            millis,
            e.rows[n - 1].1.cells.len() as int,
        )),
{
    if rows_waiting(e, now, millis, n) {
        let i = choose|i: int|
            0 <= i < n && row_waiting(
                e,
                (#[trigger] e.rows[i]).1.cells,
                now,
                millis,
                e.rows[i].1.cells.len() as int,
            );
        assert(e.rows[i].1.cells == e.rows[i].1.cells);
        if i < n - 1 {
            assert(rows_waiting(e, now, millis, n - 1));
        }
    }
    if rows_waiting(e, now, millis, n - 1) {
        let i = choose|i: int|
            0 <= i < n - 1 && row_waiting(
                e,
                (#[trigger] e.rows[i]).1.cells,
                now,
                millis,
                e.rows[i].1.cells.len() as int,
            );
        assert(e.rows[i].1.cells == e.rows[i].1.cells);
        assert(rows_waiting(e, now, millis, n));
    }
    if row_waiting(e, e.rows[n - 1].1.cells, now, millis, e.rows[n - 1].1.cells.len() as int) {
        assert(rows_waiting(e, now, millis, n));
    }
}

proof fn rows_raise(e: EngineView, tally: Tally, shown: Seq<Seq<char>>, n: int, now: Instant)
    requires
        0 <= n <= e.rows.len(),
        !any_credited(e, shown),
    ensures
        ({
            let t = engine::rows_tally(e, tally, shown, n, now);
            &&& t.glitch_trigger == raised(
                tally.glitch_trigger,
                rows_waiting(e, now, 5000, n),
                rows_waiting(e, now, 250, n),
            )
            &&& t.last_quick_confirmation == tally.last_quick_confirmation
        }),
    decreases n,
{
    if n > 0 {
        rows_raise(e, tally, shown, n - 1, now);
        let cells = e.rows[n - 1].1.cells;
        assert forall|x: int| 0 <= x < cells.len() implies !credited(
            e,
            #[trigger] cells[x],
            shown[n - 1][x],
        ) by {
            assert(!credited(e, e.rows[n - 1].1.cells[x], shown[n - 1][x]));
        }
        row_raises(
            e,
            engine::rows_tally(e, tally, shown, n - 1, now),
            cells,
            shown[n - 1],
            cells.len() as int,
            now,
        );
        rows_wait(e, now, 5000, n);
        rows_wait(e, now, 250, n);
    }
}

proof fn waits_somewhere(e: EngineView, now: Instant, millis: nat)
    ensures
        rows_waiting(e, now, millis, e.rows.len() as int) == any_waiting(e, now, millis),
{
    if rows_waiting(e, now, millis, e.rows.len() as int) {
        let i = choose|i: int|
            0 <= i < e.rows.len() && row_waiting(
                e,
                (#[trigger] e.rows[i]).1.cells,
                now,
                millis,
                e.rows[i].1.cells.len() as int,
            );
        let cells = e.rows[i].1.cells;
        assert(row_waiting(e, cells, now, millis, cells.len() as int));
        let x = choose|x: int|
            0 <= x < cells.len() && waiting(e, #[trigger] cells[x], now, millis);
        assert(waiting(e, e.rows[i].1.cells[x], now, millis));
    }
    if any_waiting(e, now, millis) {
        let (i, x) = choose|i: int, x: int|
            0 <= i < e.rows.len() && 0 <= x < e.rows[i].1.cells.len() && waiting(
                e,
                #[trigger] e.rows[i].1.cells[x],
                now,
                millis,
            );
        let cells = e.rows[i].1.cells;
        assert(waiting(e, cells[x], now, millis));
        assert(row_waiting(e, cells, now, millis, cells.len() as int));
    }
}

/// Slow answers are noted: a prediction that has waited for a quarter of a second raises the glitch
/// trigger to ten, one that has waited for five seconds sets it to twenty. This is what happens
/// while no prediction speaks for its epoch.
pub proof fn slow_answers_raise_trigger(
    e: EngineView,
    shown: Seq<Seq<char>>,
    row: usize,
    col: usize,
    now: Instant,
)
    requires
        !any_credited(e, shown),
    ensures
        ({
            let after = e.validated(shown, row, col, now);
            &&& any_waiting(e, now, 5000) ==> after.glitch_trigger == 20
            &&& !any_waiting(e, now, 5000) && any_waiting(e, now, 250) && e.glitch_trigger < 10
                ==> after.glitch_trigger == 10
            &&& !any_waiting(e, now, 5000) && (!any_waiting(e, now, 250) || e.glitch_trigger
                >= 10) ==> after.glitch_trigger == e.glitch_trigger
            &&& after.last_quick_confirmation == e.last_quick_confirmation
        }),
{
    rows_raise(e, blank_tally(e), shown, e.rows.len() as int, now);
    waits_somewhere(e, now, 5000);
    waits_somewhere(e, now, 250);
}

spec fn row_quick(
    e: EngineView,
    cells: Seq<OverlayCellView>,
    shown: Seq<char>,
    now: Instant,
    n: int,
) -> bool {
    exists|x: int|
        0 <= x < n && credited(e, #[trigger] cells[x], shown[x]) && now.nanos
            < cells[x].prediction_time.nanos + 250_000_000
}

/// The glitch trigger, and when it was last lowered, after a quick answer.
spec fn lowered(trigger: u32, last: Instant, quick: bool, now: Instant) -> (u32, Instant) {
    if quick && trigger > 0 && now.nanos >= last.nanos + 150_000_000 {
        ((trigger - 1) as u32, now)
    } else {
        (trigger, last)
    }
}

proof fn row_lowers(
    e: EngineView,
    tally: Tally,
    cells: Seq<OverlayCellView>,
    shown: Seq<char>,
    n: int,
    now: Instant,
)
    requires
        0 <= n <= cells.len(),
        forall|x: int| 0 <= x < cells.len() ==> !waiting(e, #[trigger] cells[x], now, 250),
    ensures
        ({
            let t = engine::row_tally(e, tally, cells, shown, n, now);
            (t.glitch_trigger, t.last_quick_confirmation) == lowered(
                tally.glitch_trigger,
                tally.last_quick_confirmation,
                row_quick(e, cells, shown, now, n),
                now,
            )
        }),
    decreases n,
{
    if n > 0 {
        row_lowers(e, tally, cells, shown, n - 1, now);
        credit(e, cells, shown, n - 1);
        assert(!waiting(e, cells[n - 1], now, 250));
        if row_quick(e, cells, shown, now, n) {
            let x = choose|x: int|
                0 <= x < n && credited(e, #[trigger] cells[x], shown[x]) && now.nanos
                    < cells[x].prediction_time.nanos + 250_000_000;
            assert(credited(e, cells[x], shown[x]));
            if x < n - 1 {
                assert(row_quick(e, cells, shown, now, n - 1));
            }
        }
        if row_quick(e, cells, shown, now, n - 1) {
            let x = choose|x: int|
                0 <= x < n - 1 && credited(e, #[trigger] cells[x], shown[x]) && now.nanos
                    < cells[x].prediction_time.nanos + 250_000_000;
            assert(credited(e, cells[x], shown[x]));
            assert(row_quick(e, cells, shown, now, n));
        }
        if credited(e, cells[n - 1], shown[n - 1]) && now.nanos < cells[n
            - 1].prediction_time.nanos + 250_000_000 {
            assert(row_quick(e, cells, shown, now, n));
        }
    }
}

spec fn rows_quick(e: EngineView, shown: Seq<Seq<char>>, now: Instant, n: int) -> bool {
    exists|i: int|
        0 <= i < n && row_quick(
            e,
            (#[trigger] e.rows[i]).1.cells,
            shown[i],
            now,
            e.rows[i].1.cells.len() as int,
        )
}

proof fn rows_lower(e: EngineView, tally: Tally, shown: Seq<Seq<char>>, n: int, now: Instant)
    requires
        0 <= n <= e.rows.len(),
        !any_waiting(e, now, 250),
    ensures
        ({
            let t = engine::rows_tally(e, tally, shown, n, now);
            (t.glitch_trigger, t.last_quick_confirmation) == lowered(
                tally.glitch_trigger,
                tally.last_quick_confirmation,
                rows_quick(e, shown, now, n),
                now,
            )
        }),
    decreases n,
{
    if n > 0 {
        rows_lower(e, tally, shown, n - 1, now);
        let cells = e.rows[n - 1].1.cells;
        assert forall|x: int| 0 <= x < cells.len() implies !waiting(
            e,
            #[trigger] cells[x],
            now,
            250,
        ) by {
            assert(!waiting(e, e.rows[n - 1].1.cells[x], now, 250));
        }
        row_lowers(
            e,
            engine::rows_tally(e, tally, shown, n - 1, now),
            cells,
            shown[n - 1],
            cells.len() as int,
            now,
        );
        if rows_quick(e, shown, now, n) {
            let i = choose|i: int|
                0 <= i < n && row_quick(
                    e,
                    (#[trigger] e.rows[i]).1.cells,
                    shown[i],
                    now,
                    e.rows[i].1.cells.len() as int,
                );
            assert(e.rows[i].1.cells == e.rows[i].1.cells);
            if i < n - 1 {
                assert(rows_quick(e, shown, now, n - 1));
            }
        }
        if rows_quick(e, shown, now, n - 1) {
            let i = choose|i: int|
                0 <= i < n - 1 && row_quick(
                    e,
                    (#[trigger] e.rows[i]).1.cells,
                    shown[i],
                    now,
                    e.rows[i].1.cells.len() as int,
                );
            assert(e.rows[i].1.cells == e.rows[i].1.cells);
            assert(rows_quick(e, shown, now, n));
        }
        if row_quick(e, cells, shown[n - 1], now, cells.len() as int) {
            assert(e.rows[n - 1].1.cells == cells);
            assert(rows_quick(e, shown, now, n));
        }
    }
}

/// Quick answers make up for a glitch: one that comes within a quarter of a second lowers the
/// trigger by one, at most once in a hundred and fifty milliseconds. This is what happens while no
/// prediction waits for a quarter of a second.
pub proof fn quick_answers_lower_trigger(
    e: EngineView,
    shown: Seq<Seq<char>>,
    row: usize,
    col: usize,
    now: Instant,
)
    requires
        !any_waiting(e, now, 250),
    ensures
        ({
            let after = e.validated(shown, row, col, now);
            let quick = any_quick(e, shown, now) && e.glitch_trigger > 0 && now.nanos
                >= e.last_quick_confirmation.nanos + 150_000_000;
            &&& quick ==> after.glitch_trigger == e.glitch_trigger - 1
                && after.last_quick_confirmation == now
            &&& !quick ==> after.glitch_trigger == e.glitch_trigger
                && after.last_quick_confirmation == e.last_quick_confirmation
        }),
{
    let n = e.rows.len() as int;
    rows_lower(e, blank_tally(e), shown, n, now);
    if rows_quick(e, shown, now, n) {
        let i = choose|i: int|
            0 <= i < n && row_quick(
                e,
                (#[trigger] e.rows[i]).1.cells,
                shown[i],
                now,
                e.rows[i].1.cells.len() as int,
            );
        let cells = e.rows[i].1.cells;
        assert(row_quick(e, cells, shown[i], now, cells.len() as int));
        let x = choose|x: int|
            0 <= x < cells.len() && credited(e, #[trigger] cells[x], shown[i][x]) && now.nanos
                < cells[x].prediction_time.nanos + 250_000_000;
        assert(credited(e, e.rows[i].1.cells[x], shown[i][x]));
    }
    if any_quick(e, shown, now) {
        let (i, x) = choose|i: int, x: int|
            0 <= i < e.rows.len() && 0 <= x < e.rows[i].1.cells.len() && credited(
                e,
                #[trigger] e.rows[i].1.cells[x],
                shown[i][x],
            ) && now.nanos < e.rows[i].1.cells[x].prediction_time.nanos + 250_000_000;
        let cells = e.rows[i].1.cells;
        assert(credited(e, cells[x], shown[i][x]));
        assert(row_quick(e, cells, shown[i], now, cells.len() as int));
        assert(rows_quick(e, shown, now, n));
    }
}

/// Withdrawing an epoch takes the cells up to it and leaves the later ones alone; the cursors before
/// it stay, a new one at the given position follows them, and the next epoch begins.
pub proof fn killing_takes_one_epoch(e: EngineView, epoch: u64, row: usize, col: usize)
    requires
        e.prediction_epoch < u64::MAX,
        e.local_frame_sent < u64::MAX,
    ensures
        ({
            let after = e.epoch_killed(epoch, row, col);
            let last = after.cursors.last();
            &&& after.rows.len() == e.rows.len()
            &&& forall|i: int, x: int|
                0 <= i < e.rows.len() && 0 <= x < e.rows[i].1.cells.len() ==> {
                    let cell = e.rows[i].1.cells[x];
                    let now_there = #[trigger] after.rows[i].1.cells[x];
                    if cell.active && cell.tentative_until_epoch <= epoch {
                        !now_there.active
                    } else {
                        now_there == cell
                    }
                }
            &&& after.prediction_epoch == e.prediction_epoch + 1
            &&& after.cursors.len() > 0
            &&& after.cursors.drop_last() == e.cursors.filter(
                |c: ConditionalCursorMove| c.tentative_until_epoch < epoch,
            )
            &&& last.active && last.row == row && last.col == col && last.expiration_frame
                == e.local_frame_sent + 1 && last.tentative_until_epoch == e.prediction_epoch
        }),
{
    let after = e.epoch_killed(epoch, row, col);
    let a = |c: ConditionalCursorMove| c.tentative_until_epoch <= epoch - 1;
    let b = |c: ConditionalCursorMove| c.tentative_until_epoch < epoch;
    assert(a =~= b);
    assert(after.cursors.drop_last() =~= e.cursors.filter(a));
}

} // verus!
