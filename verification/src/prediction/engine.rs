//! Speculative local echo: what a keystroke will probably do is shown at once, and confirmed or
//! withdrawn when the server's state arrives.

use crate::prediction::overlay;
use crate::prediction::overlay::ConditionalCursorMove;
use crate::prediction::overlay::ConditionalOverlayCell;
use crate::prediction::overlay::Overlay;
use crate::prediction::overlay::OverlayCellView;
use crate::prediction::overlay::OverlayRow;
use crate::prediction::overlay::OverlayRowView;
use crate::prediction::overlay::Validity;
use crate::time;
use crate::time::Instant;
use vstd::prelude::*;

verus! {

/// Display preference for predictions.
#[derive(Debug, Clone, Copy, PartialEq, Eq, Structural)]
pub enum DisplayPreference {
    Always,
    Never,
    Adaptive,
}

/// At or below this send interval a slow link counts as fast again.
pub const SRTT_TRIGGER_LOW: u64 = 20;

/// Above this send interval predictions are shown.
pub const SRTT_TRIGGER_HIGH: u64 = 30;

/// At or below this send interval predictions are no longer underlined.
pub const FLAG_TRIGGER_LOW: u64 = 50;

/// Above this send interval predictions are underlined.
pub const FLAG_TRIGGER_HIGH: u64 = 80;

/// A prediction that is outstanding for so long is a glitch.
pub const GLITCH_THRESHOLD_MS: u64 = 250;

/// How many quick confirmations make up for a glitch.
pub const GLITCH_REPAIR_COUNT: u32 = 10;

/// Quick confirmations count only with this distance between them.
pub const GLITCH_REPAIR_MININTERVAL_MS: u64 = 150;

/// A prediction that is outstanding for so long is a severe glitch.
pub const GLITCH_FLAG_THRESHOLD_MS: u64 = 5000;

/// What the prediction engine holds.
#[verifier::ext_equal]
pub struct EngineView {
    /// The overlay rows, each with its number, in order.
    pub rows: Seq<(usize, OverlayRowView)>,
    pub cursors: Seq<ConditionalCursorMove>,
    pub local_frame_sent: u64,
    pub local_frame_acked: u64,
    pub local_frame_late_acked: u64,
    pub prediction_epoch: u64,
    pub confirmed_epoch: u64,
    pub flagging: bool,
    pub srtt_trigger: bool,
    pub glitch_trigger: u32,
    pub last_quick_confirmation: Instant,
    pub send_interval_ms: u64,
    pub display_preference: DisplayPreference,
    pub predict_overwrite: bool,
    pub last_height: usize,
    pub last_width: usize,
}

/// Whether every row has `width` cells and is stored under its own number.
pub open spec fn rows_regular(rows: Seq<(usize, OverlayRowView)>, width: int) -> bool {
    forall|i: int|
        0 <= i < rows.len() ==> (#[trigger] rows[i]).1.cells.len() == width && rows[i].1.row_num
            == rows[i].0
}

/// Whether a character is predicted to appear: the printable part of ASCII.
pub open spec fn is_printable(ch: char) -> bool {
    32 <= ch as int <= 126
}

/// The character that deletes to the left.
pub open spec fn is_backspace(ch: char) -> bool {
    ch as int == 127
}

/// A cell that predicts something as of now, whatever it predicted before.
pub open spec fn placed(
    cell: OverlayCellView,
    epoch: u64,
    frame: u64,
    now: Instant,
) -> OverlayCellView {
    OverlayCellView {
        active: true,
        tentative_until_epoch: epoch,
        expiration_frame: frame,
        prediction_time: now,
        ..cell.retired()
    }
}

/// What the cell at position `i` predicts once everything from position `col` on has moved right by
/// one: what its left neighbour predicted, a blank if that predicted nothing. At the end of the row
/// nothing is known.
pub open spec fn pushed_right(
    cells: Seq<OverlayCellView>,
    i: int,
    epoch: u64,
    frame: u64,
    now: Instant,
) -> OverlayCellView {
    let cell = placed(cells[i], epoch, frame, now);
    let left = cells[i - 1];
    if i == cells.len() - 1 || left.active && left.unknown {
        OverlayCellView { unknown: true, ..cell }
    } else if left.active {
        OverlayCellView { unknown: false, replacement: left.replacement, ..cell }
    } else {
        OverlayCellView { unknown: false, replacement: ' ', ..cell }
    }
}

/// A row after `ch` was typed at position `col`; the cells up to position `rightmost` move right.
pub open spec fn row_inserted(
    cells: Seq<OverlayCellView>,
    ch: char,
    col: int,
    rightmost: int,
    epoch: u64,
    frame: u64,
    now: Instant,
) -> Seq<OverlayCellView> {
    Seq::new(
        cells.len(),
        |i: int|
            if i == col {
                OverlayCellView {
                    unknown: false,
                    replacement: ch,
                    ..placed(cells[i], epoch, frame, now)
                }
            } else if col < i <= rightmost {
                pushed_right(cells, i, epoch, frame, now)
            } else {
                cells[i]
            },
    )
}

/// A row after the character left of position `col` was deleted: overwritten with a blank, or else
/// nothing is known from there to the end of the row.
pub open spec fn row_deleted(
    cells: Seq<OverlayCellView>,
    col: int,
    overwrite: bool,
    epoch: u64,
    frame: u64,
    now: Instant,
) -> Seq<OverlayCellView> {
    Seq::new(
        cells.len(),
        |i: int|
            if overwrite && i == col - 1 {
                OverlayCellView { replacement: ' ', ..placed(cells[i], epoch, frame, now) }
            } else if !overwrite && i >= col - 1 {
                OverlayCellView { unknown: true, ..placed(cells[i], epoch, frame, now) }
            } else {
                cells[i]
            },
    )
}

/// What the judgement of the predictions adds up to.
#[derive(Debug, Clone, Copy, PartialEq, Eq, Structural)]
pub struct Tally {
    pub glitch_trigger: u32,
    pub last_quick_confirmation: Instant,
    pub confirmed_epoch: u64,
    pub should_reset: bool,
}

/// The tally after one more cell was found to have a validity.
pub open spec fn tallied(
    tally: Tally,
    cell: OverlayCellView,
    validity: Validity,
    now: Instant,
) -> Tally {
    let age = time::millis_between(cell.prediction_time, now);
    match validity {
        Validity::IncorrectOrExpired => Tally { should_reset: true, ..tally },
        Validity::Correct => {
            let quick = age < GLITCH_THRESHOLD_MS && tally.glitch_trigger > 0
                && time::millis_between(tally.last_quick_confirmation, now)
                >= GLITCH_REPAIR_MININTERVAL_MS;
            Tally {
                confirmed_epoch: if cell.tentative_until_epoch > tally.confirmed_epoch {
                    cell.tentative_until_epoch
                } else {
                    tally.confirmed_epoch
                },
                glitch_trigger: if quick {
                    (tally.glitch_trigger - 1) as u32
                } else {
                    tally.glitch_trigger
                },
                last_quick_confirmation: if quick {
                    now
                } else {
                    tally.last_quick_confirmation
                },
                ..tally
            }
        },
        Validity::Pending => Tally {
            glitch_trigger: if age >= GLITCH_FLAG_THRESHOLD_MS {
                20
            } else if age >= GLITCH_THRESHOLD_MS && tally.glitch_trigger < GLITCH_REPAIR_COUNT {
                GLITCH_REPAIR_COUNT
            } else {
                tally.glitch_trigger
            },
            ..tally
        },
        Validity::CorrectNoCredit => tally,
        Validity::Inactive => tally,
    }
}

/// The cell after it was found to have a validity: what is confirmed is no longer predicted.
pub open spec fn settled(cell: OverlayCellView, validity: Validity) -> OverlayCellView {
    if validity == Validity::Correct || validity == Validity::CorrectNoCredit {
        cell.cleared()
    } else {
        cell
    }
}

/// The validity of the cell at position `i`, where the server shows `actual`.
pub open spec fn cell_validity(
    e: EngineView,
    cells: Seq<OverlayCellView>,
    actual: Seq<char>,
    i: int,
) -> Validity {
    cells[i].validity(
        actual[i],
        e.last_height as int,
        e.last_width as int,
        e.local_frame_late_acked as int,
    )
}

/// The tally after the first `n` cells of a row.
pub open spec fn row_tally(
    e: EngineView,
    tally: Tally,
    cells: Seq<OverlayCellView>,
    actual: Seq<char>,
    n: int,
    now: Instant,
) -> Tally
    decreases n,
{
    if n <= 0 {
        tally
    } else {
        tallied(
            row_tally(e, tally, cells, actual, n - 1, now),
            cells[n - 1],
            cell_validity(e, cells, actual, n - 1),
            now,
        )
    }
}

/// The tally after the first `n` rows.
pub open spec fn rows_tally(
    e: EngineView,
    tally: Tally,
    actual: Seq<Seq<char>>,
    n: int,
    now: Instant,
) -> Tally
    decreases n,
{
    if n <= 0 {
        tally
    } else {
        let cells = e.rows[n - 1].1.cells;
        row_tally(
            e,
            rows_tally(e, tally, actual, n - 1, now),
            cells,
            actual[n - 1],
            cells.len() as int,
            now,
        )
    }
}

/// A row after its cells were judged.
pub open spec fn row_settled(
    e: EngineView,
    row: OverlayRowView,
    actual: Seq<char>,
) -> OverlayRowView {
    OverlayRowView {
        cells: Seq::new(
            row.cells.len(),
            |i: int| settled(row.cells[i], cell_validity(e, row.cells, actual, i)),
        ),
        ..row
    }
}

impl EngineView {
    /// An engine that has predicted nothing yet.
    pub open spec fn fresh(now: Instant) -> EngineView {
        EngineView {
            rows: Seq::empty(),
            cursors: Seq::empty(),
            local_frame_sent: 0,
            local_frame_acked: 0,
            local_frame_late_acked: 0,
            prediction_epoch: 1,
            confirmed_epoch: 0,
            flagging: false,
            srtt_trigger: false,
            glitch_trigger: 0,
            last_quick_confirmation: now,
            send_interval_ms: 250,
            display_preference: DisplayPreference::Adaptive,
            predict_overwrite: false,
            last_height: 0,
            last_width: 0,
        }
    }

    /// Whether predictions should be displayed.
    pub open spec fn displays(self) -> bool {
        match self.display_preference {
            DisplayPreference::Never => false,
            DisplayPreference::Always => true,
            DisplayPreference::Adaptive => self.srtt_trigger || self.glitch_trigger > 0,
        }
    }

    /// The next epoch has begun: what is predicted from now on is tentative until confirmed.
    pub open spec fn tentative(self) -> EngineView {
        EngineView { prediction_epoch: (self.prediction_epoch + 1) as u64, ..self }
    }

    /// All predictions withdrawn.
    pub open spec fn cleared(self) -> EngineView {
        EngineView { cursors: Seq::empty(), rows: Seq::empty(), ..self.tentative() }
    }

    /// A screen of other dimensions withdraws all predictions.
    pub open spec fn resized(self, num_rows: usize, num_cols: usize) -> EngineView {
        if self.last_height != num_rows || self.last_width != num_cols {
            (EngineView { last_height: num_rows, last_width: num_cols, ..self }).cleared()
        } else {
            self
        }
    }

    /// The triggers follow the send interval with hysteresis, and rows outside the screen go.
    pub open spec fn culled(self, num_rows: usize) -> EngineView {
        if self.display_preference == DisplayPreference::Never {
            self
        } else {
            EngineView {
                srtt_trigger: if self.send_interval_ms > SRTT_TRIGGER_HIGH {
                    true
                } else if self.send_interval_ms <= SRTT_TRIGGER_LOW && !overlay::rows_active(
                    self.rows,
                ) {
                    false
                } else {
                    self.srtt_trigger
                },
                flagging: if self.send_interval_ms > FLAG_TRIGGER_HIGH || self.glitch_trigger
                    > GLITCH_REPAIR_COUNT {
                    true
                } else if self.send_interval_ms <= FLAG_TRIGGER_LOW {
                    false
                } else {
                    self.flagging
                },
                rows: overlay::rows_below(self.rows, num_rows),
                ..self
            }
        }
    }

    /// An active cursor prediction of the current epoch.
    pub open spec fn cursor_here(self, row: usize, col: usize) -> ConditionalCursorMove {
        ConditionalCursorMove {
            expiration_frame: (self.local_frame_sent + 1) as u64,
            row,
            col,
            active: true,
            tentative_until_epoch: self.prediction_epoch,
        }
    }

    /// A cursor prediction of the current epoch is there.
    pub open spec fn with_cursor(self, row: usize, col: usize) -> EngineView {
        if self.cursors.len() > 0 && self.cursors.last().tentative_until_epoch
            == self.prediction_epoch {
            self
        } else {
            EngineView { cursors: self.cursors.push(self.cursor_here(row, col)), ..self }
        }
    }

    /// The latest cursor prediction moved to another column.
    pub open spec fn cursor_moved(self, col: usize) -> EngineView {
        if self.cursors.len() > 0 {
            EngineView {
                cursors: self.cursors.update(
                    self.cursors.len() - 1,
                    ConditionalCursorMove {
                        col,
                        expiration_frame: (self.local_frame_sent + 1) as u64,
                        ..self.cursors.last()
                    },
                ),
                ..self
            }
        } else {
            self
        }
    }

    /// The row with number `row`, made if there is none.
    pub open spec fn row_cells(self, row: usize, now: Instant) -> OverlayRowView {
        overlay::row_or_fresh(self.rows, row, self.last_width as nat, self.prediction_epoch, now)
    }

    /// The row with number `row` has other cells.
    pub open spec fn with_cells(
        self,
        row: usize,
        now: Instant,
        cells: Seq<OverlayCellView>,
    ) -> EngineView {
        EngineView {
            rows: overlay::with_row(
                self.rows,
                row,
                OverlayRowView { cells, ..self.row_cells(row, now) },
            ),
            ..self
        }
    }

    /// A backspace at a position.
    pub open spec fn deleted(self, row: usize, col: usize, now: Instant) -> EngineView {
        if col == 0 {
            self
        } else {
            let e = self.cursor_moved((col - 1) as usize);
            e.with_cells(
                row,
                now,
                row_deleted(
                    e.row_cells(row, now).cells,
                    col as int,
                    e.predict_overwrite,
                    e.prediction_epoch,
                    (e.local_frame_sent + 1) as u64,
                    now,
                ),
            )
        }
    }

    /// A printable character typed at a position. At the last column it is not clear what happens,
    /// so the next epoch begins.
    pub open spec fn inserted(self, ch: char, row: usize, col: usize, now: Instant) -> EngineView {
        let e = if col + 1 >= self.last_width {
            self.tentative()
        } else {
            self
        };
        e.with_cells(
            row,
            now,
            row_inserted(
                e.row_cells(row, now).cells,
                ch,
                col as int,
                if e.predict_overwrite {
                    col as int
                } else {
                    e.last_width - 1
                },
                e.prediction_epoch,
                (e.local_frame_sent + 1) as u64,
                now,
            ),
        ).cursor_moved((col + 1) as usize)
    }

    /// Whether a keystroke can be predicted: the cursor is on the screen, and the counters last.
    pub open spec fn takes(self, ch: char, col: usize, num_cols: usize) -> bool {
        self.display_preference != DisplayPreference::Never ==> {
            &&& self.local_frame_sent < u64::MAX
            &&& self.prediction_epoch < u64::MAX - 1
            &&& is_printable(ch) ==> col < num_cols
            &&& is_backspace(ch) && self.predict_overwrite ==> col <= num_cols
        }
    }

    /// A keystroke with the cursor at a position of a screen.
    pub open spec fn typed(
        self,
        ch: char,
        row: usize,
        col: usize,
        num_cols: usize,
        num_rows: usize,
        now: Instant,
    ) -> EngineView {
        if self.display_preference == DisplayPreference::Never {
            self
        } else {
            let e = self.resized(num_rows, num_cols).culled(num_rows).with_cursor(row, col);
            if is_backspace(ch) {
                e.deleted(row, col, now)
            } else if is_printable(ch) {
                e.inserted(ch, row, col, now)
            } else {
                e.tentative()
            }
        }
    }

    /// How a cursor prediction stands against the server's cursor.
    pub open spec fn cursor_stands(self, c: ConditionalCursorMove, row: usize, col: usize) -> Validity {
        overlay::cursor_validity(
            c,
            row as int,
            col as int,
            self.last_height as int,
            self.last_width as int,
            self.local_frame_late_acked as int,
        )
    }

    /// The tally over all predictions; `actual` is what the server shows, cell by cell.
    pub open spec fn tally(self, actual: Seq<Seq<char>>, now: Instant) -> Tally {
        rows_tally(
            self,
            Tally {
                glitch_trigger: self.glitch_trigger,
                last_quick_confirmation: self.last_quick_confirmation,
                confirmed_epoch: self.confirmed_epoch,
                should_reset: false,
            },
            actual,
            self.rows.len() as int,
            now,
        )
    }

    /// Whether some prediction turned out wrong, a cell or the latest cursor.
    pub open spec fn refuted(
        self,
        actual: Seq<Seq<char>>,
        row: usize,
        col: usize,
        now: Instant,
    ) -> bool {
        ||| self.tally(actual, now).should_reset
        ||| self.cursors.len() > 0 && self.cursor_stands(self.cursors.last(), row, col)
            == Validity::IncorrectOrExpired
    }

    /// The server's state has arrived: what it confirms is settled, cursors stay while they are
    /// pending, and a wrong prediction withdraws all.
    pub open spec fn validated(
        self,
        actual: Seq<Seq<char>>,
        row: usize,
        col: usize,
        now: Instant,
    ) -> EngineView {
        let tally = self.tally(actual, now);
        let e = EngineView {
            rows: Seq::new(
                self.rows.len(),
                |i: int| (self.rows[i].0, row_settled(self, self.rows[i].1, actual[i])),
            ),
            cursors: self.cursors.filter(
                |c: ConditionalCursorMove| self.cursor_stands(c, row, col) == Validity::Pending,
            ),
            glitch_trigger: tally.glitch_trigger,
            last_quick_confirmation: tally.last_quick_confirmation,
            confirmed_epoch: tally.confirmed_epoch,
            ..self
        };
        if self.refuted(actual, row, col, now) {
            e.cleared()
        } else {
            e
        }
    }

    /// All predictions of an epoch withdrawn, with a new cursor prediction in their place.
    pub open spec fn epoch_killed(self, epoch: u64, row: usize, col: usize) -> EngineView {
        EngineView {
            cursors: self.cursors.filter(
                |c: ConditionalCursorMove| c.tentative_until_epoch <= epoch - 1,
            ).push(self.cursor_here(row, col)),
            rows: Seq::new(
                self.rows.len(),
                |i: int| (self.rows[i].0, self.rows[i].1.killed(epoch)),
            ),
            ..self.tentative()
        }
    }
}

/// Whether `actual` is what a reader of the server's screen answered, cell by cell.
pub open spec fn answers<F: Fn(usize, usize) -> char>(
    get_cell: F,
    rows: Seq<(usize, OverlayRowView)>,
    actual: Seq<Seq<char>>,
) -> bool {
    &&& actual.len() == rows.len()
    &&& forall|r: int|
        0 <= r < rows.len() ==> #[trigger] row_answers(get_cell, rows[r].1, actual[r])
}

/// Whether `actual` is what a reader of the server's screen answered for a row.
pub open spec fn row_answers<F: Fn(usize, usize) -> char>(
    get_cell: F,
    row: OverlayRowView,
    actual: Seq<char>,
) -> bool {
    &&& actual.len() == row.cells.len()
    &&& forall|i: int|
        0 <= i < actual.len() ==> call_ensures(
            get_cell,
            (row.row_num, row.cells[i].col),
            #[trigger] actual[i],
        )
}

/// The prediction engine tracks speculative local echo for low-latency feel.
///
/// When the user types a character, it is shown locally before the server confirms it. When the
/// server's state arrives, predictions are confirmed (if matching) or withdrawn (if wrong).
pub struct PredictionEngine {
    /// Overlay cells for predicted characters.
    overlay: Overlay,
    /// Cursor position predictions.
    cursors: Vec<ConditionalCursorMove>,
    /// Frame number when we last sent a packet.
    local_frame_sent: u64,
    /// Frame number of the last acknowledged packet.
    local_frame_acked: u64,
    /// Frame number of the last packet whose echo was acknowledged.
    local_frame_late_acked: u64,
    /// Current prediction epoch.
    prediction_epoch: u64,
    /// Highest confirmed epoch.
    confirmed_epoch: u64,
    /// Whether predictions are shown with underline.
    flagging: bool,
    /// Whether predictions are shown because the link is slow.
    srtt_trigger: bool,
    /// How long predictions are still shown because of a glitch.
    glitch_trigger: u32,
    /// Last time a prediction was quickly confirmed.
    last_quick_confirmation: Instant,
    /// Current send interval.
    send_interval_ms: u64,
    /// Display preference.
    display_preference: DisplayPreference,
    /// Whether to predict in overwrite mode.
    predict_overwrite: bool,
    /// Last known terminal height.
    last_height: usize,
    /// Last known terminal width.
    last_width: usize,
}

impl View for PredictionEngine {
    type V = EngineView;

    closed spec fn view(&self) -> EngineView {
        EngineView {
            rows: self.overlay@,
            cursors: self.cursors@,
            local_frame_sent: self.local_frame_sent,
            local_frame_acked: self.local_frame_acked,
            local_frame_late_acked: self.local_frame_late_acked,
            prediction_epoch: self.prediction_epoch,
            confirmed_epoch: self.confirmed_epoch,
            flagging: self.flagging,
            srtt_trigger: self.srtt_trigger,
            glitch_trigger: self.glitch_trigger,
            last_quick_confirmation: self.last_quick_confirmation,
            send_interval_ms: self.send_interval_ms,
            display_preference: self.display_preference,
            predict_overwrite: self.predict_overwrite,
            last_height: self.last_height,
            last_width: self.last_width,
        }
    }
}

impl PredictionEngine {
    /// The rows are in order, and each is as wide as the terminal and stored under its own number.
    pub open spec fn wf(&self) -> bool {
        &&& overlay::ascending(self@.rows)
        &&& rows_regular(self@.rows, self@.last_width as int)
    }

    /// An engine that has predicted nothing yet, made at the given time.
    pub fn new_at(now: Instant) -> (res: Self)
        ensures
            res.wf(),
            res@ == EngineView::fresh(now),
    {
        let res = PredictionEngine {
            overlay: Overlay::new(),
            cursors: Vec::new(),
            local_frame_sent: 0,
            local_frame_acked: 0,
            local_frame_late_acked: 0,
            prediction_epoch: 1,
            confirmed_epoch: 0,
            flagging: false,
            srtt_trigger: false,
            glitch_trigger: 0,
            last_quick_confirmation: now,
            send_interval_ms: 250,
            display_preference: DisplayPreference::Adaptive,
            predict_overwrite: false,
            last_height: 0,
            last_width: 0,
        };
        assert(res@ =~= EngineView::fresh(now));
        res
    }

    /// An engine that has predicted nothing yet, made now.
    pub fn new() -> (res: Self)
        ensures
            res.wf(),
            res@ == EngineView::fresh(res@.last_quick_confirmation),
    {
        Self::new_at(Instant::now())
    }

    /// Sets the display preference.
    pub fn set_display_preference(&mut self, pref: DisplayPreference)
        ensures
            final(self)@ == (EngineView { display_preference: pref, ..old(self)@ }),
    {
        self.display_preference = pref;
    }

    /// Sets whether to use overwrite mode for predictions.
    pub fn set_predict_overwrite(&mut self, overwrite: bool)
        ensures
            final(self)@ == (EngineView { predict_overwrite: overwrite, ..old(self)@ }),
    {
        self.predict_overwrite = overwrite;
    }

    /// Updates the send interval from the round-trip time measurement.
    pub fn set_send_interval(&mut self, ms: u64)
        ensures
            final(self)@ == (EngineView { send_interval_ms: ms, ..old(self)@ }),
    {
        self.send_interval_ms = ms;
    }

    /// Records that we sent a packet.
    pub fn set_local_frame_sent(&mut self, frame: u64)
        ensures
            final(self)@ == (EngineView { local_frame_sent: frame, ..old(self)@ }),
    {
        self.local_frame_sent = frame;
    }

    /// Records that a frame was acknowledged.
    pub fn set_local_frame_acked(&mut self, frame: u64)
        ensures
            final(self)@ == (EngineView { local_frame_acked: frame, ..old(self)@ }),
    {
        self.local_frame_acked = frame;
    }

    /// Records that the echo of a frame was acknowledged.
    pub fn set_local_frame_late_acked(&mut self, frame: u64)
        ensures
            final(self)@ == (EngineView { local_frame_late_acked: frame, ..old(self)@ }),
    {
        self.local_frame_late_acked = frame;
    }

    /// The frame whose echo was acknowledged last.
    pub fn local_frame_late_acked(&self) -> (res: u64)
        ensures
            res == self@.local_frame_late_acked,
    {
        self.local_frame_late_acked
    }

    /// The current prediction epoch.
    pub fn prediction_epoch(&self) -> (res: u64)
        ensures
            res == self@.prediction_epoch,
    {
        self.prediction_epoch
    }

    /// The highest confirmed epoch.
    pub fn confirmed_epoch(&self) -> (res: u64)
        ensures
            res == self@.confirmed_epoch,
    {
        self.confirmed_epoch
    }

    /// Whether predictions are shown because the link is slow.
    pub fn srtt_trigger(&self) -> (res: bool)
        ensures
            res == self@.srtt_trigger,
    {
        self.srtt_trigger
    }

    /// Whether predictions are shown with underline.
    pub fn flagging(&self) -> (res: bool)
        ensures
            res == self@.flagging,
    {
        self.flagging
    }

    /// Whether predictions are currently active (showing something).
    pub fn is_active(&self) -> (res: bool)
        ensures
            res == overlay::rows_active(self@.rows),
    {
        !self.overlay.is_empty()
    }

    /// Whether timing-based triggers are still relevant.
    pub fn timing_tests_necessary(&self) -> (res: bool)
        ensures
            res == !(self@.glitch_trigger > 0 && self@.flagging),
    {
        !(self.glitch_trigger > 0 && self.flagging)
    }

    /// How long to wait before the next timing check (ms).
    pub fn wait_time_ms(&self) -> (res: u64)
        ensures
            res == if !(self@.glitch_trigger > 0 && self@.flagging) && overlay::rows_active(
                self@.rows,
            ) {
                50
            } else {
                u64::MAX
            },
    {
        if self.timing_tests_necessary() && self.is_active() {
            50
        } else {
            u64::MAX
        }
    }

    /// Whether predictions should be displayed.
    pub fn should_display(&self) -> (res: bool)
        ensures
            res == self@.displays(),
    {
        match self.display_preference {
            DisplayPreference::Never => false,
            DisplayPreference::Always => true,
            DisplayPreference::Adaptive => self.srtt_trigger || self.glitch_trigger > 0,
        }
    }

    /// Becomes tentative: the next epoch begins.
    fn become_tentative(&mut self)
        requires
            old(self)@.prediction_epoch < u64::MAX,
        ensures
            final(self)@ == old(self)@.tentative(),
    {
        self.prediction_epoch = self.prediction_epoch + 1;
    }

    /// Adds an active cursor prediction of the current epoch.
    fn push_cursor(&mut self, row: usize, col: usize)
        requires
            old(self)@.local_frame_sent < u64::MAX,
        ensures
            final(self)@ == (EngineView {
                cursors: old(self)@.cursors.push(old(self)@.cursor_here(row, col)),
                ..old(self)@
            }),
    {
        let mut cursor = ConditionalCursorMove::new(row, col, self.prediction_epoch);
        cursor.active = true;
        cursor.expiration_frame = self.local_frame_sent + 1;
        self.cursors.push(cursor);
    }

    /// Starts a cursor prediction if there is none of the current epoch.
    fn init_cursor(&mut self, cursor_row: usize, cursor_col: usize)
        requires
            old(self)@.local_frame_sent < u64::MAX,
        ensures
            final(self)@ == old(self)@.with_cursor(cursor_row, cursor_col),
    {
        let n: usize = self.cursors.len();
        if n == 0 || self.cursors[n - 1].tentative_until_epoch != self.prediction_epoch {
            self.push_cursor(cursor_row, cursor_col);
        }
    }

    /// Moves the latest cursor prediction to another column.
    fn move_cursor(&mut self, col: usize)
        requires
            old(self)@.local_frame_sent < u64::MAX,
        ensures
            final(self)@ == old(self)@.cursor_moved(col),
    {
        let n: usize = self.cursors.len();
        if n > 0 {
            let mut cursor = self.cursors[n - 1];
            cursor.col = col;
            cursor.expiration_frame = self.local_frame_sent + 1;
            self.cursors[n - 1] = cursor;
        }
    }

    /// The current cursor position from the cursor predictions.
    pub fn cursor_pos(&self) -> (res: Option<(usize, usize)>)
        ensures
            res == if self@.cursors.len() > 0 && self@.cursors.last().active {
                Some((self@.cursors.last().row, self@.cursors.last().col))
            } else {
                None
            },
    {
        let n: usize = self.cursors.len();
        if n > 0 && self.cursors[n - 1].active {
            Some((self.cursors[n - 1].row, self.cursors[n - 1].col))
        } else {
            None
        }
    }

    /// Withdraws all predictions of an epoch.
    pub fn kill_epoch(&mut self, epoch: u64, cursor_row: usize, cursor_col: usize)
        requires
            old(self).wf(),
            epoch > 0,
            old(self)@.local_frame_sent < u64::MAX,
            old(self)@.prediction_epoch < u64::MAX,
        ensures
            final(self).wf(),
            final(self)@ == old(self)@.epoch_killed(epoch, cursor_row, cursor_col),
    {
        let ghost keep = |c: ConditionalCursorMove| c.tentative_until_epoch <= epoch - 1;
        let ghost all = self.cursors@;
        let mut kept: Vec<ConditionalCursorMove> = Vec::new();
        let mut i: usize = 0;
        assert(all.take(0) =~= Seq::<ConditionalCursorMove>::empty());
        reveal(Seq::filter);
        while i < self.cursors.len()
            invariant
                i <= self.cursors@.len(),
                self.cursors@ == all,
                epoch > 0,
                keep == (|c: ConditionalCursorMove| c.tentative_until_epoch <= epoch - 1),
                kept@ == all.take(i as int).filter(keep),
            decreases self.cursors@.len() - i,
        {
            let c = self.cursors[i];
            proof {
                reveal(Seq::filter);
                assert(all.take(i + 1).drop_last() =~= all.take(i as int));
            }
            if !c.is_tentative(epoch - 1) {
                kept.push(c);
            }
            i = i + 1;
        }
        assert(all.take(i as int) =~= all);
        self.cursors = kept;
        self.push_cursor(cursor_row, cursor_col);
        self.overlay.kill_epoch(epoch);
        self.become_tentative();
        assert(self@ =~= old(self)@.epoch_killed(epoch, cursor_row, cursor_col));
    }

    /// Withdraws all predictions.
    pub fn reset(&mut self)
        requires
            old(self)@.prediction_epoch < u64::MAX,
        ensures
            final(self).wf(),
            final(self)@ == old(self)@.cleared(),
    {
        self.cursors.clear();
        self.overlay = Overlay::new();
        self.become_tentative();
        assert(self@ =~= old(self)@.cleared());
    }

    /// Brings the triggers in line with the send interval and drops rows outside the screen.
    pub fn cull(&mut self, _cursor_row: usize, _cursor_col: usize, num_rows: usize, _num_cols: usize)
        requires
            old(self).wf(),
        ensures
            final(self).wf(),
            final(self)@ == old(self)@.culled(num_rows),
    {
        if self.display_preference == DisplayPreference::Never {
            return ;
        }
        if self.send_interval_ms > SRTT_TRIGGER_HIGH {
            self.srtt_trigger = true;
        } else if self.srtt_trigger && self.send_interval_ms <= SRTT_TRIGGER_LOW
            && !self.is_active() {
            self.srtt_trigger = false;
        }
        if self.send_interval_ms > FLAG_TRIGGER_HIGH {
            self.flagging = true;
        } else if self.send_interval_ms <= FLAG_TRIGGER_LOW {
            self.flagging = false;
        }
        if self.glitch_trigger > GLITCH_REPAIR_COUNT {
            self.flagging = true;
        }
        proof {
            overlay::slot_bounds(self@.rows, num_rows);
        }
        self.overlay.prune(num_rows);
        assert(self@ =~= old(self)@.culled(num_rows));
        assert forall|i: int| 0 <= i < self@.rows.len() implies (
        #[trigger] self@.rows[i]).1.cells.len() == self@.last_width by {
            assert(self@.rows[i] == old(self)@.rows[i]);
        }
    }

    /// Predicts a backspace (moves the cursor left, clears the cell).
    fn predict_backspace(&mut self, cursor_row: usize, cursor_col: usize, now: Instant)
        requires
            old(self).wf(),
            old(self)@.local_frame_sent < u64::MAX,
            old(self)@.predict_overwrite ==> cursor_col <= old(self)@.last_width,
        ensures
            final(self).wf(),
            final(self)@ == old(self)@.deleted(cursor_row, cursor_col, now),
    {
        if cursor_col == 0 {
            return ;
        }
        self.move_cursor(cursor_col - 1);
        let ghost e = self@;
        let epoch: u64 = self.prediction_epoch;
        let frame: u64 = self.local_frame_sent + 1;
        let overwrite = self.predict_overwrite;
        let width: usize = self.last_width;
        proof {
            overlay::slot_bounds(e.rows, cursor_row);
        }
        let row = self.overlay.get_or_make_row_at(cursor_row, width, epoch, now);
        delete_in_row(row, cursor_col, overwrite, epoch, frame, now);
        proof {
            row_widths_kept(
                e.rows,
                cursor_row,
                overlay::with_row(
                    e.rows,
                    cursor_row,
                    OverlayRowView {
                        cells: row_deleted(
                            e.row_cells(cursor_row, now).cells,
                            cursor_col as int,
                            overwrite,
                            epoch,
                            frame,
                            now,
                        ),
                        ..e.row_cells(cursor_row, now)
                    },
                ),
                width as int,
            );
        }
        assert(self@ =~= old(self)@.deleted(cursor_row, cursor_col, now));
    }

    /// Predicts a character insertion at the cursor position.
    fn predict_insert(&mut self, ch: char, cursor_row: usize, cursor_col: usize, now: Instant)
        requires
            old(self).wf(),
            old(self)@.local_frame_sent < u64::MAX,
            old(self)@.prediction_epoch < u64::MAX,
            cursor_col < old(self)@.last_width,
        ensures
            final(self).wf(),
            final(self)@ == old(self)@.inserted(ch, cursor_row, cursor_col, now),
    {
        if cursor_col + 1 >= self.last_width {
            self.become_tentative();
        }
        let ghost e = self@;
        let epoch: u64 = self.prediction_epoch;
        let frame: u64 = self.local_frame_sent + 1;
        let width: usize = self.last_width;
        let rightmost: usize = if self.predict_overwrite {
            cursor_col
        } else {
            width - 1
        };
        proof {
            overlay::slot_bounds(e.rows, cursor_row);
        }
        let row = self.overlay.get_or_make_row_at(cursor_row, width, epoch, now);
        insert_in_row(row, ch, cursor_col, rightmost, epoch, frame, now);
        proof {
            row_widths_kept(
                e.rows,
                cursor_row,
                overlay::with_row(
                    e.rows,
                    cursor_row,
                    OverlayRowView {
                        cells: row_inserted(
                            e.row_cells(cursor_row, now).cells,
                            ch,
                            cursor_col as int,
                            rightmost as int,
                            epoch,
                            frame,
                            now,
                        ),
                        ..e.row_cells(cursor_row, now)
                    },
                ),
                width as int,
            );
        }
        self.move_cursor(cursor_col + 1);
        assert(self@ =~= old(self)@.inserted(ch, cursor_row, cursor_col, now));
    }

    /// Processes a user keystroke, made at the given time, and creates predictions.
    ///
    /// `ch` is the character typed, `cursor_row` and `cursor_col` are the current cursor position on
    /// a screen of `num_cols` columns and `num_rows` rows.
    pub fn new_user_byte_at(
        &mut self,
        ch: char,
        cursor_row: usize,
        cursor_col: usize,
        num_cols: usize,
        num_rows: usize,
        now: Instant,
    )
        requires
            old(self).wf(),
            old(self)@.takes(ch, cursor_col, num_cols),
        ensures
            final(self).wf(),
            final(self)@ == old(self)@.typed(ch, cursor_row, cursor_col, num_cols, num_rows, now),
    {
        if self.display_preference == DisplayPreference::Never {
            return ;
        }
        if self.last_height != num_rows || self.last_width != num_cols {
            self.last_height = num_rows;
            self.last_width = num_cols;
            self.reset();
        }
        assert(self@ =~= old(self)@.resized(num_rows, num_cols));
        self.cull(cursor_row, cursor_col, num_rows, num_cols);
        self.init_cursor(cursor_row, cursor_col);
        if ch as u32 == 127 {
            self.predict_backspace(cursor_row, cursor_col, now);
        } else if (ch as u32) < 32 || ch as u32 > 126 {
            self.become_tentative();
        } else {
            self.predict_insert(ch, cursor_row, cursor_col, now);
        }
    }

    /// Whether a keystroke can be predicted.
    pub fn takes(&self, ch: char, cursor_col: usize, num_cols: usize) -> (res: bool)
        ensures
            res == self@.takes(ch, cursor_col, num_cols),
    {
        let code: u32 = ch as u32;
        self.display_preference == DisplayPreference::Never || self.local_frame_sent < u64::MAX
            && self.prediction_epoch < u64::MAX - 1 && (code < 32 || code > 126 || cursor_col
            < num_cols) && (code != 127 || !self.predict_overwrite || cursor_col <= num_cols)
    }

    /// Processes a user keystroke and creates predictions.
    ///
    /// `cell_at_cursor` is what is currently at the cursor position.
    pub fn new_user_byte(
        &mut self,
        ch: char,
        cursor_row: usize,
        cursor_col: usize,
        _cell_at_cursor: char,
        num_cols: usize,
        num_rows: usize,
    )
        requires
            old(self).wf(),
            old(self)@.takes(ch, cursor_col, num_cols),
        ensures
            final(self).wf(),
            exists|now: Instant|
                final(self)@ == #[trigger] old(self)@.typed(
                    ch,
                    cursor_row,
                    cursor_col,
                    num_cols,
                    num_rows,
                    now,
                ),
    {
        self.new_user_byte_at(ch, cursor_row, cursor_col, num_cols, num_rows, Instant::now());
    }
}

impl PredictionEngine {
    /// Keeps the cursor predictions that are pending.
    fn keep_pending_cursors(&mut self, cursor_row: usize, cursor_col: usize)
        ensures
            final(self)@ == (EngineView {
                cursors: old(self)@.cursors.filter(
                    |c: ConditionalCursorMove|
                        old(self)@.cursor_stands(c, cursor_row, cursor_col) == Validity::Pending,
                ),
                ..old(self)@
            }),
    {
        let ghost e = self@;
        let ghost keep = |c: ConditionalCursorMove|
            e.cursor_stands(c, cursor_row, cursor_col) == Validity::Pending;
        let ghost all = self.cursors@;
        let mut kept: Vec<ConditionalCursorMove> = Vec::new();
        let mut i: usize = 0;
        assert(all.take(0) =~= Seq::<ConditionalCursorMove>::empty());
        reveal(Seq::filter);
        while i < self.cursors.len()
            invariant
                i <= self.cursors@.len(),
                self@ == e,
                self.cursors@ == all,
                keep == (|c: ConditionalCursorMove|
                    e.cursor_stands(c, cursor_row, cursor_col) == Validity::Pending),
                kept@ == all.take(i as int).filter(keep),
            decreases self.cursors@.len() - i,
        {
            let c = self.cursors[i];
            proof {
                reveal(Seq::filter);
                assert(all.take(i + 1).drop_last() =~= all.take(i as int));
            }
            let validity = c.get_validity(
                cursor_row,
                cursor_col,
                self.last_height,
                self.last_width,
                self.local_frame_late_acked,
            );
            if validity == Validity::Pending {
                kept.push(c);
            }
            i = i + 1;
        }
        assert(all.take(i as int) =~= all);
        self.cursors = kept;
    }

    /// Validates predictions, at the given time, against the server's state.
    ///
    /// Called when a new server state arrives: each predicted cell is compared with
    /// `get_cell(row, col)`, and the latest cursor prediction with the server's cursor.
    pub fn validate_predictions_at<F: Fn(usize, usize) -> char>(
        &mut self,
        get_cell: F,
        cursor_row: usize,
        cursor_col: usize,
        now: Instant,
    )
        requires
            old(self).wf(),
            old(self)@.prediction_epoch < u64::MAX,
            forall|r: usize, c: usize| call_requires(get_cell, (r, c)),
        ensures
            final(self).wf(),
            exists|actual: Seq<Seq<char>>| #[trigger]
                answers(get_cell, old(self)@.rows, actual) && final(self)@ == old(self)@.validated(
                    actual,
                    cursor_row,
                    cursor_col,
                    now,
                ),
    {
        let ghost e = self@;
        let ghost mut actual: Seq<Seq<char>> = Seq::empty();
        let start = Tally {
            glitch_trigger: self.glitch_trigger,
            last_quick_confirmation: self.last_quick_confirmation,
            confirmed_epoch: self.confirmed_epoch,
            should_reset: false,
        };
        let mut tally = start;
        let num_rows: usize = self.last_height;
        let num_cols: usize = self.last_width;
        let n: usize = self.overlay.row_count();
        let mut i: usize = 0;
        while i < n
            invariant
                i <= n,
                n == e.rows.len(),
                n == self@.rows.len(),
                self@ == (EngineView { rows: self@.rows, ..e }),
                overlay::ascending(self@.rows),
                rows_regular(e.rows, e.last_width as int),
                num_rows == e.last_height,
                num_cols == e.last_width,
                forall|r: usize, c: usize| call_requires(get_cell, (r, c)),
                actual.len() == i,
                forall|k: int|
                    0 <= k < i ==> #[trigger] row_answers(get_cell, e.rows[k].1, actual[k]),
                forall|k: int|
                    0 <= k < i ==> #[trigger] self@.rows[k] == (
                        e.rows[k].0,
                        row_settled(e, e.rows[k].1, actual[k]),
                    ),
                forall|k: int| i <= k < n ==> #[trigger] self@.rows[k] == e.rows[k],
                tally == rows_tally(e, start, actual, i as int, now),
            decreases n - i,
        {
            let ghost before = actual;
            let acked: u64 = self.local_frame_acked;
            let late_acked: u64 = self.local_frame_late_acked;
            proof {
                assert forall|k: int| 0 <= k < self@.rows.len() implies (
                #[trigger] self@.rows[k]).1.row_num == self@.rows[k].0 by {
                    assert(e.rows[k].1.row_num == e.rows[k].0);
                }
                overlay::stored_in_order(self@.rows);
            }
            match self.overlay.rows_mut(i) {
                Some(row) => {
                    let (sum, Ghost(seen)) = judge_row(
                        row,
                        tally,
                        &get_cell,
                        Ghost(e),
                        num_rows,
                        num_cols,
                        acked,
                        late_acked,
                        now,
                    );
                    tally = sum;
                    proof {
                        actual = actual.push(seen);
                        tally_of_first_rows(e, start, before, actual, i as int, now);
                        assert forall|k: int|
                            0 <= k < i + 1 implies #[trigger] row_answers(
                            get_cell,
                            e.rows[k].1,
                            actual[k],
                        ) by {
                            if k < i {
                                assert(row_answers(get_cell, e.rows[k].1, before[k]));
                            }
                        }
                    }
                },
                None => {},
            }
            i = i + 1;
        }
        let ghost settled_rows = Seq::new(
            e.rows.len(),
            |k: int| (e.rows[k].0, row_settled(e, e.rows[k].1, actual[k])),
        );
        assert(self@.rows =~= settled_rows);
        self.glitch_trigger = tally.glitch_trigger;
        self.last_quick_confirmation = tally.last_quick_confirmation;
        self.confirmed_epoch = tally.confirmed_epoch;
        let mut should_reset = tally.should_reset;
        let last: usize = self.cursors.len();
        if last > 0 {
            let validity = self.cursors[last - 1].get_validity(
                cursor_row,
                cursor_col,
                num_rows,
                num_cols,
                self.local_frame_late_acked,
            );
            if validity == Validity::IncorrectOrExpired {
                should_reset = true;
            }
        }
        let ghost mid = self@;
        self.keep_pending_cursors(cursor_row, cursor_col);
        proof {
            assert((|c: ConditionalCursorMove|
                mid.cursor_stands(c, cursor_row, cursor_col) == Validity::Pending) =~= (
            |c: ConditionalCursorMove|
                e.cursor_stands(c, cursor_row, cursor_col) == Validity::Pending));
            assert(answers(get_cell, e.rows, actual));
            assert(should_reset == e.refuted(actual, cursor_row, cursor_col, now));
        }
        if should_reset {
            self.reset();
        }
        assert(self@ =~= e.validated(actual, cursor_row, cursor_col, now));
        assert(rows_regular(self@.rows, self@.last_width as int)) by {
            if !should_reset {
                assert forall|k: int| 0 <= k < self@.rows.len() implies (
                #[trigger] self@.rows[k]).1.cells.len() == self@.last_width && self@.rows[k].1.row_num
                    == self@.rows[k].0 by {
                    assert(e.rows[k].1.cells.len() == e.last_width);
                }
            }
        }
    }

    /// Validates predictions against the server's state.
    pub fn validate_predictions<F: Fn(usize, usize) -> char>(
        &mut self,
        get_cell: F,
        cursor_row: usize,
        cursor_col: usize,
    )
        requires
            old(self).wf(),
            old(self)@.prediction_epoch < u64::MAX,
            forall|r: usize, c: usize| call_requires(get_cell, (r, c)),
        ensures
            final(self).wf(),
            exists|actual: Seq<Seq<char>>, now: Instant|
                #![trigger old(self)@.validated(actual, cursor_row, cursor_col, now)]
                answers(get_cell, old(self)@.rows, actual) && final(self)@ == old(self)@.validated(
                    actual,
                    cursor_row,
                    cursor_col,
                    now,
                ),
    {
        self.validate_predictions_at(get_cell, cursor_row, cursor_col, Instant::now());
    }

    /// The overlay of predicted cells.
    pub fn overlay(&self) -> (res: &Overlay)
        ensures
            res@ == self@.rows,
    {
        &self.overlay
    }
}

impl Default for PredictionEngine {
    fn default() -> (res: Self)
        ensures
            res.wf(),
            res@ == EngineView::fresh(res@.last_quick_confirmation),
    {
        Self::new()
    }
}

/// Replacing or adding a row of the common width keeps all rows at that width.
proof fn row_widths_kept(
    rows: Seq<(usize, OverlayRowView)>,
    k: usize,
    next: Seq<(usize, OverlayRowView)>,
    width: int,
)
    requires
        overlay::ascending(rows),
        rows_regular(rows, width),
        exists|row: OverlayRowView|
            row.cells.len() == width && row.row_num == k && next == #[trigger] overlay::with_row(
                rows,
                k,
                row,
            ),
    ensures
        rows_regular(next, width),
{
    let row = choose|row: OverlayRowView|
        row.cells.len() == width && row.row_num == k && next == #[trigger] overlay::with_row(
            rows,
            k,
            row,
        );
    overlay::slot_bounds(rows, k);
    let s = overlay::slot(rows, k);
    assert forall|i: int| 0 <= i < next.len() implies (#[trigger] next[i]).1.cells.len() == width
        && next[i].1.row_num == next[i].0 by {
        if !overlay::has_row(rows, k) {
            if i < s {
                assert(next[i] == rows[i]);
            } else if i > s {
                assert(next[i] == rows[i - 1]);
            }
        } else if i != s {
            assert(next[i] == rows[i]);
        }
    }
}

/// Makes a cell predict something as of now.
fn place(cell: &mut ConditionalOverlayCell, epoch: u64, frame: u64, now: Instant)
    ensures
        final(cell)@ == placed(old(cell)@, epoch, frame, now),
{
    cell.reset_with_orig();
    cell.tentative_until_epoch = epoch;
    cell.expire(frame, now);
    assert(cell@ =~= placed(old(cell)@, epoch, frame, now));
}

/// Deletes the character left of position `col` in a row.
fn delete_in_row(
    row: &mut OverlayRow,
    col: usize,
    overwrite: bool,
    epoch: u64,
    frame: u64,
    now: Instant,
)
    requires
        col > 0,
        overwrite ==> col <= old(row)@.cells.len(),
    ensures
        final(row)@ == (OverlayRowView {
            cells: row_deleted(old(row)@.cells, col as int, overwrite, epoch, frame, now),
            ..old(row)@
        }),
{
    let ghost cells = row@.cells;
    if overwrite {
        place(&mut row.cells[col - 1], epoch, frame, now);
        row.cells[col - 1].replacement = ' ';
        assert(row@.cells =~= row_deleted(cells, col as int, overwrite, epoch, frame, now));
    } else {
        let mut i: usize = col - 1;
        let n: usize = row.cells.len();
        while i < n
            invariant
                col > 0,
                !overwrite,
                n == row.cells@.len(),
                n == cells.len(),
                col - 1 <= i,
                row.row_num == old(row).row_num,
                forall|k: int|
                    0 <= k < n ==> (#[trigger] row.cells@[k])@ == if col - 1 <= k < i {
                        row_deleted(cells, col as int, overwrite, epoch, frame, now)[k]
                    } else {
                        cells[k]
                    },
            decreases n - i,
        {
            place(&mut row.cells[i], epoch, frame, now);
            row.cells[i].unknown = true;
            i = i + 1;
        }
        assert(row@.cells =~= row_deleted(cells, col as int, overwrite, epoch, frame, now));
    }
}

/// Inserts a character at position `col` of a row, moving the cells up to `rightmost` right.
fn insert_in_row(
    row: &mut OverlayRow,
    ch: char,
    col: usize,
    rightmost: usize,
    epoch: u64,
    frame: u64,
    now: Instant,
)
    requires
        col <= rightmost < old(row)@.cells.len(),
    ensures
        final(row)@ == (OverlayRowView {
            cells: row_inserted(
                old(row)@.cells,
                ch,
                col as int,
                rightmost as int,
                epoch,
                frame,
                now,
            ),
            ..old(row)@
        }),
{
    let ghost cells = row@.cells;
    let n: usize = row.cells.len();
    let mut i: usize = rightmost;
    while i > col
        invariant
            col <= i <= rightmost < n,
            n == row.cells@.len(),
            n == cells.len(),
            row.row_num == old(row).row_num,
            forall|k: int|
                0 <= k < n ==> (#[trigger] row.cells@[k])@ == if i < k <= rightmost {
                    pushed_right(cells, k, epoch, frame, now)
                } else {
                    cells[k]
                },
        decreases i,
    {
        let left_active = row.cells[i - 1].active;
        let left_unknown = row.cells[i - 1].unknown;
        let left_replacement = row.cells[i - 1].replacement;
        assert(row.cells@[i - 1]@ == cells[i - 1]);
        assert(row.cells@[i as int]@ == cells[i as int]);
        place(&mut row.cells[i], epoch, frame, now);
        if i == n - 1 || (left_active && left_unknown) {
            row.cells[i].unknown = true;
        } else if left_active {
            row.cells[i].unknown = false;
            row.cells[i].replacement = left_replacement;
        } else {
            row.cells[i].unknown = false;
            row.cells[i].replacement = ' ';
        }
        assert(row.cells@[i as int]@ =~= pushed_right(cells, i as int, epoch, frame, now));
        i = i - 1;
    }
    assert(row.cells@[col as int]@ == cells[col as int]);
    place(&mut row.cells[col], epoch, frame, now);
    row.cells[col].unknown = false;
    row.cells[col].replacement = ch;
    assert(row@.cells =~= row_inserted(
        cells,
        ch,
        col as int,
        rightmost as int,
        epoch,
        frame,
        now,
    ));
}

/// The tally after one more cell was found to have a validity.
fn tally_cell(tally: Tally, cell: &ConditionalOverlayCell, validity: Validity, now: Instant) -> (res:
    Tally)
    ensures
        res == tallied(tally, cell@, validity, now),
{
    let mut res = tally;
    match validity {
        Validity::IncorrectOrExpired => {
            res.should_reset = true;
        },
        Validity::Correct => {
            if cell.tentative_until_epoch > res.confirmed_epoch {
                res.confirmed_epoch = cell.tentative_until_epoch;
            }
            let elapsed: u64 = now.millis_since(cell.prediction_time);
            if elapsed < GLITCH_THRESHOLD_MS && res.glitch_trigger > 0 && now.millis_since(
                res.last_quick_confirmation,
            ) >= GLITCH_REPAIR_MININTERVAL_MS {
                res.glitch_trigger = res.glitch_trigger - 1;
                res.last_quick_confirmation = now;
            }
        },
        Validity::Pending => {
            let elapsed: u64 = now.millis_since(cell.prediction_time);
            if elapsed >= GLITCH_FLAG_THRESHOLD_MS {
                res.glitch_trigger = GLITCH_REPAIR_COUNT * 2;
            } else if elapsed >= GLITCH_THRESHOLD_MS && res.glitch_trigger < GLITCH_REPAIR_COUNT {
                res.glitch_trigger = GLITCH_REPAIR_COUNT;
            }
        },
        Validity::CorrectNoCredit => {},
        Validity::Inactive => {},
    }
    res
}

/// Judges the cells of a row against what a reader of the server's screen answers.
fn judge_row<F: Fn(usize, usize) -> char>(
    row: &mut OverlayRow,
    tally: Tally,
    get_cell: &F,
    Ghost(e): Ghost<EngineView>,
    num_rows: usize,
    num_cols: usize,
    acked: u64,
    late_acked: u64,
    now: Instant,
) -> (res: (Tally, Ghost<Seq<char>>))
    requires
        forall|r: usize, c: usize| call_requires(*get_cell, (r, c)),
        e.last_height == num_rows,
        e.last_width == num_cols,
        e.local_frame_late_acked == late_acked,
    ensures
        row_answers(*get_cell, old(row)@, res.1@),
        final(row)@ == row_settled(e, old(row)@, res.1@),
        res.0 == row_tally(
            e,
            tally,
            old(row)@.cells,
            res.1@,
            old(row)@.cells.len() as int,
            now,
        ),
{
    let ghost cells = row@.cells;
    let ghost mut actual: Seq<char> = Seq::empty();
    let mut sum = tally;
    let rn: usize = row.row_num;
    let n: usize = row.cells.len();
    let mut i: usize = 0;
    while i < n
        invariant
            i <= n,
            n == row.cells@.len(),
            n == cells.len(),
            rn == row.row_num,
            rn == old(row).row_num,
            cells == old(row)@.cells,
            forall|r: usize, c: usize| call_requires(*get_cell, (r, c)),
            e.last_height == num_rows,
            e.last_width == num_cols,
            e.local_frame_late_acked == late_acked,
            actual.len() == i,
            forall|k: int|
                0 <= k < i ==> call_ensures(*get_cell, (rn, cells[k].col), #[trigger] actual[k]),
            forall|k: int|
                0 <= k < i ==> (#[trigger] row.cells@[k])@ == settled(
                    cells[k],
                    cell_validity(e, cells, actual, k),
                ),
            forall|k: int| i <= k < n ==> (#[trigger] row.cells@[k])@ == cells[k],
            sum == row_tally(e, tally, cells, actual, i as int, now),
        decreases n - i,
    {
        let shown: char = get_cell(rn, row.cells[i].col);
        let ghost before = actual;
        proof {
            actual = actual.push(shown);
            tally_of_prefix(e, tally, cells, before, actual, i as int, now);
            assert forall|k: int| 0 <= k < i implies cell_validity(e, cells, before, k)
                == cell_validity(e, cells, actual, k) by {}
        }
        let validity = row.cells[i].get_validity(shown, num_rows, num_cols, acked, late_acked);
        sum = tally_cell(sum, &row.cells[i], validity, now);
        match validity {
            Validity::Correct => {
                row.cells[i].reset();
            },
            Validity::CorrectNoCredit => {
                row.cells[i].reset();
            },
            _ => {},
        }
        i = i + 1;
    }
    assert(row@ =~= row_settled(e, old(row)@, actual));
    (sum, Ghost(actual))
}

/// The tally over the first cells depends on the answers for those cells only.
proof fn tally_of_prefix(
    e: EngineView,
    tally: Tally,
    cells: Seq<OverlayCellView>,
    a: Seq<char>,
    b: Seq<char>,
    n: int,
    now: Instant,
)
    requires
        n <= a.len(),
        n <= b.len(),
        forall|k: int| 0 <= k < n ==> a[k] == b[k],
    ensures
        row_tally(e, tally, cells, a, n, now) == row_tally(e, tally, cells, b, n, now),
    decreases n,
{
    if n > 0 {
        tally_of_prefix(e, tally, cells, a, b, n - 1, now);
    }
}

/// The tally over the first rows depends on the answers for those rows only.
proof fn tally_of_first_rows(
    e: EngineView,
    tally: Tally,
    a: Seq<Seq<char>>,
    b: Seq<Seq<char>>,
    n: int,
    now: Instant,
)
    requires
        n <= a.len(),
        n <= b.len(),
        forall|k: int| 0 <= k < n ==> a[k] == b[k],
    ensures
        rows_tally(e, tally, a, n, now) == rows_tally(e, tally, b, n, now),
    decreases n,
{
    if n > 0 {
        tally_of_first_rows(e, tally, a, b, n - 1, now);
    }
}

} // verus!
