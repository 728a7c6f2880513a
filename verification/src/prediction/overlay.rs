//! Predictions laid over the screen: characters in cells, and cursor positions.

use crate::time::Instant;
use vstd::prelude::*;

verus! {

/// Validity of a prediction against the current server state.
#[derive(Debug, Clone, Copy, PartialEq, Eq, Structural)]
pub enum Validity {
    /// Not yet confirmed by the server (waiting for an acknowledgment).
    Pending,
    /// The prediction matches the server state: confirmed.
    Correct,
    /// The prediction matches but is trivial (blank matches blank).
    CorrectNoCredit,
    /// The prediction does not match or has expired.
    IncorrectOrExpired,
    /// The prediction is inactive.
    Inactive,
}

/// A predicted cell replacement.
#[derive(Debug)]
pub struct ConditionalOverlayCell {
    /// When this prediction expires (frame number).
    pub expiration_frame: u64,
    /// Column position.
    pub col: usize,
    /// Whether this cell is actively predicting.
    pub active: bool,
    /// Epoch until which this prediction is tentative.
    pub tentative_until_epoch: u64,
    /// When this prediction was created (for glitch detection).
    pub prediction_time: Instant,
    /// The predicted character.
    pub replacement: char,
    /// Whether the prediction is for an unknown character (e.g. beyond the last column).
    pub unknown: bool,
    /// What was predicted here before (for credit tracking).
    pub original_contents: Vec<char>,
}

/// What a predicted cell holds.
#[verifier::ext_equal]
pub struct OverlayCellView {
    pub expiration_frame: u64,
    pub col: usize,
    pub active: bool,
    pub tentative_until_epoch: u64,
    pub prediction_time: Instant,
    pub replacement: char,
    pub unknown: bool,
    pub original_contents: Seq<char>,
}

impl View for ConditionalOverlayCell {
    type V = OverlayCellView;

    open spec fn view(&self) -> OverlayCellView {
        OverlayCellView {
            expiration_frame: self.expiration_frame,
            col: self.col,
            active: self.active,
            tentative_until_epoch: self.tentative_until_epoch,
            prediction_time: self.prediction_time,
            replacement: self.replacement,
            unknown: self.unknown,
            original_contents: self.original_contents@,
        }
    }
}

impl OverlayCellView {
    /// A cell that predicts nothing yet.
    pub open spec fn fresh(col: usize, epoch: u64, time: Instant) -> OverlayCellView {
        OverlayCellView {
            expiration_frame: 0,
            col,
            active: false,
            tentative_until_epoch: epoch,
            prediction_time: time,
            replacement: ' ',
            unknown: false,
            original_contents: Seq::empty(),
        }
    }

    /// The cell made inactive, with no memory of what was predicted.
    pub open spec fn cleared(self) -> OverlayCellView {
        OverlayCellView {
            active: false,
            expiration_frame: u64::MAX,
            tentative_until_epoch: u64::MAX,
            unknown: false,
            original_contents: Seq::empty(),
            ..self
        }
    }

    /// The cell made inactive; a known character that it predicted is remembered.
    pub open spec fn retired(self) -> OverlayCellView {
        if !self.active || self.unknown {
            self.cleared()
        } else {
            OverlayCellView {
                active: false,
                expiration_frame: u64::MAX,
                tentative_until_epoch: u64::MAX,
                original_contents: self.original_contents.push(self.replacement),
                ..self
            }
        }
    }

    /// How the prediction stands against the character `actual` that the server shows.
    pub open spec fn validity(
        self,
        actual: char,
        row_height: int,
        col_width: int,
        late_ack: int,
    ) -> Validity {
        if !self.active {
            Validity::Inactive
        } else if row_height == 0 || self.col >= col_width {
            Validity::IncorrectOrExpired
        } else if late_ack < self.expiration_frame {
            Validity::Pending
        } else if self.unknown || self.replacement == ' ' && actual == ' ' {
            Validity::CorrectNoCredit
        } else if actual != self.replacement {
            Validity::IncorrectOrExpired
        } else if self.original_contents.contains(actual) {
            Validity::CorrectNoCredit
        } else {
            Validity::Correct
        }
    }
}

/// Whether `c` is among the characters of `chars`.
fn holds_char(chars: &Vec<char>, c: char) -> (res: bool)
    ensures
        res == chars@.contains(c),
{
    let mut i: usize = 0;
    while i < chars.len()
        invariant
            i <= chars@.len(),
            forall|k: int| 0 <= k < i ==> chars@[k] != c,
        decreases chars@.len() - i,
    {
        if chars[i] == c {
            assert(chars@[i as int] == c);
            return true;
        }
        i = i + 1;
    }
    false
}

/// A copy of a list of characters.
fn clone_chars(chars: &Vec<char>) -> (res: Vec<char>)
    ensures
        res@ == chars@,
{
    let mut res: Vec<char> = Vec::new();
    while res.len() < chars.len()
        invariant
            res@.len() <= chars@.len(),
            res@ == chars@.take(res@.len() as int),
        decreases chars@.len() - res@.len(),
    {
        let n: usize = res.len();
        res.push(chars[n]);
        assert(res@ =~= chars@.take(n + 1));
    }
    assert(res@ =~= chars@);
    res
}

impl Clone for ConditionalOverlayCell {
    fn clone(&self) -> (res: Self)
        ensures
            res@ == self@,
    {
        ConditionalOverlayCell {
            expiration_frame: self.expiration_frame,
            col: self.col,
            active: self.active,
            tentative_until_epoch: self.tentative_until_epoch,
            prediction_time: self.prediction_time,
            replacement: self.replacement,
            unknown: self.unknown,
            original_contents: clone_chars(&self.original_contents),
        }
    }
}

impl ConditionalOverlayCell {
    /// A cell that predicts nothing yet, made at the given time.
    pub fn new_at(col: usize, epoch: u64, time: Instant) -> (res: Self)
        ensures
            res@ == OverlayCellView::fresh(col, epoch, time),
    {
        let res = ConditionalOverlayCell {
            expiration_frame: 0,
            col,
            active: false,
            tentative_until_epoch: epoch,
            prediction_time: time,
            replacement: ' ',
            unknown: false,
            original_contents: Vec::new(),
        };
        assert(res@ =~= OverlayCellView::fresh(col, epoch, time));
        res
    }

    /// A cell that predicts nothing yet, made now.
    pub fn new(col: usize, epoch: u64) -> (res: Self)
        ensures
            res@ == OverlayCellView::fresh(col, epoch, res@.prediction_time),
    {
        Self::new_at(col, epoch, Instant::now())
    }

    /// Whether this prediction is still tentative (not yet confirmed).
    pub fn is_tentative(&self, confirmed_epoch: u64) -> (res: bool)
        ensures
            res == (self@.tentative_until_epoch > confirmed_epoch),
    {
        self.tentative_until_epoch > confirmed_epoch
    }

    /// Resets to the inactive state.
    pub fn reset(&mut self)
        ensures
            final(self)@ == old(self)@.cleared(),
    {
        self.active = false;
        self.expiration_frame = u64::MAX;
        self.tentative_until_epoch = u64::MAX;
        self.unknown = false;
        self.original_contents.clear();
        assert(self@ =~= old(self)@.cleared());
    }

    /// Resets but preserves original contents for credit tracking.
    pub fn reset_with_orig(&mut self)
        ensures
            final(self)@ == old(self)@.retired(),
    {
        if !self.active || self.unknown {
            self.reset();
            return ;
        }
        self.original_contents.push(self.replacement);
        self.active = false;
        self.expiration_frame = u64::MAX;
        self.tentative_until_epoch = u64::MAX;
    }

    /// Marks the cell as active with an expiration: the frame at which the prediction expires, and
    /// the time it was made.
    pub fn expire(&mut self, frame: u64, time: Instant)
        ensures
            final(self)@ == (OverlayCellView {
                active: true,
                expiration_frame: frame,
                prediction_time: time,
                ..old(self)@
            }),
    {
        self.active = true;
        self.expiration_frame = frame;
        self.prediction_time = time;
    }

    /// Checks validity against the actual cell content.
    pub fn get_validity(
        &self,
        actual: char,
        row_height: usize,
        col_width: usize,
        _early_ack: u64,
        late_ack: u64,
    ) -> (res: Validity)
        ensures
            res == self@.validity(actual, row_height as int, col_width as int, late_ack as int),
    {
        if !self.active {
            return Validity::Inactive;
        }
        if row_height == 0 || self.col >= col_width {
            return Validity::IncorrectOrExpired;
        }
        if late_ack < self.expiration_frame {
            return Validity::Pending;
        }
        if self.unknown {
            return Validity::CorrectNoCredit;
        }
        if self.replacement == ' ' && actual == ' ' {
            return Validity::CorrectNoCredit;
        }
        if actual == self.replacement {
            if holds_char(&self.original_contents, actual) {
                return Validity::CorrectNoCredit;
            }
            return Validity::Correct;
        }
        Validity::IncorrectOrExpired
    }
}

/// A predicted cursor position.
#[derive(Debug, Clone, Copy, PartialEq, Eq, Structural)]
pub struct ConditionalCursorMove {
    /// When this prediction expires (frame number).
    pub expiration_frame: u64,
    /// Row position.
    pub row: usize,
    /// Column position.
    pub col: usize,
    /// Whether this cursor prediction is active.
    pub active: bool,
    /// Epoch until which this prediction is tentative.
    pub tentative_until_epoch: u64,
}

/// How a cursor prediction stands against the cursor that the server shows.
pub open spec fn cursor_validity(
    cursor: ConditionalCursorMove,
    actual_row: int,
    actual_col: int,
    row_height: int,
    col_width: int,
    late_ack: int,
) -> Validity {
    if !cursor.active {
        Validity::Inactive
    } else if cursor.row >= row_height || cursor.col >= col_width {
        Validity::IncorrectOrExpired
    } else if late_ack < cursor.expiration_frame {
        Validity::Pending
    } else if actual_row == cursor.row && actual_col == cursor.col {
        Validity::Correct
    } else {
        Validity::IncorrectOrExpired
    }
}

impl ConditionalCursorMove {
    /// A cursor prediction that is not active yet.
    pub fn new(row: usize, col: usize, epoch: u64) -> (res: Self)
        ensures
            res == (ConditionalCursorMove {
                expiration_frame: 0,
                row,
                col,
                active: false,
                tentative_until_epoch: epoch,
            }),
    {
        ConditionalCursorMove {
            expiration_frame: 0,
            row,
            col,
            active: false,
            tentative_until_epoch: epoch,
        }
    }

    /// Whether this prediction is still tentative (not yet confirmed).
    pub fn is_tentative(&self, confirmed_epoch: u64) -> (res: bool)
        ensures
            res == (self.tentative_until_epoch > confirmed_epoch),
    {
        self.tentative_until_epoch > confirmed_epoch
    }

    /// Checks validity against the actual cursor position.
    pub fn get_validity(
        &self,
        actual_row: usize,
        actual_col: usize,
        row_height: usize,
        col_width: usize,
        late_ack: u64,
    ) -> (res: Validity)
        ensures
            res == cursor_validity(
                *self,
                actual_row as int,
                actual_col as int,
                row_height as int,
                col_width as int,
                late_ack as int,
            ),
    {
        if !self.active {
            return Validity::Inactive;
        }
        if self.row >= row_height || self.col >= col_width {
            return Validity::IncorrectOrExpired;
        }
        if late_ack >= self.expiration_frame {
            if actual_row == self.row && actual_col == self.col {
                return Validity::Correct;
            }
            return Validity::IncorrectOrExpired;
        }
        Validity::Pending
    }
}

/// A row of overlay cells.
#[derive(Debug)]
pub struct OverlayRow {
    pub row_num: usize,
    pub cells: Vec<ConditionalOverlayCell>,
}

/// What a row of overlay cells holds.
#[verifier::ext_equal]
pub struct OverlayRowView {
    pub row_num: usize,
    pub cells: Seq<OverlayCellView>,
}

/// What a list of overlay cells holds.
pub open spec fn cells_view(cells: Seq<ConditionalOverlayCell>) -> Seq<OverlayCellView> {
    Seq::new(cells.len(), |i: int| cells[i]@)
}

impl View for OverlayRow {
    type V = OverlayRowView;

    open spec fn view(&self) -> OverlayRowView {
        OverlayRowView { row_num: self.row_num, cells: cells_view(self.cells@) }
    }
}

impl OverlayRowView {
    /// A row of cells that predict nothing yet.
    pub open spec fn fresh(
        row_num: usize,
        num_cols: nat,
        epoch: u64,
        time: Instant,
    ) -> OverlayRowView {
        OverlayRowView {
            row_num,
            cells: Seq::new(
                num_cols,
                |i: int| OverlayCellView::fresh(i as usize, epoch, time),
            ),
        }
    }

    /// Every cell made inactive.
    pub open spec fn cleared(self) -> OverlayRowView {
        OverlayRowView {
            cells: Seq::new(self.cells.len(), |i: int| self.cells[i].cleared()),
            ..self
        }
    }

    /// Every active cell made inactive that is tentative no longer than `epoch`.
    pub open spec fn killed(self, epoch: u64) -> OverlayRowView {
        OverlayRowView {
            cells: Seq::new(
                self.cells.len(),
                |i: int|
                    if self.cells[i].active && self.cells[i].tentative_until_epoch <= epoch {
                        self.cells[i].cleared()
                    } else {
                        self.cells[i]
                    },
            ),
            ..self
        }
    }

    /// Whether any cell is active.
    pub open spec fn any_active(self) -> bool {
        exists|i: int| 0 <= i < self.cells.len() && (#[trigger] self.cells[i]).active
    }
}

impl Clone for OverlayRow {
    fn clone(&self) -> (res: Self)
        ensures
            res@ == self@,
    {
        let mut cells: Vec<ConditionalOverlayCell> = Vec::new();
        while cells.len() < self.cells.len()
            invariant
                cells@.len() <= self.cells@.len(),
                forall|i: int| 0 <= i < cells@.len() ==> (#[trigger] cells@[i])@ == self.cells@[i]@,
            decreases self.cells@.len() - cells@.len(),
        {
            let n: usize = cells.len();
            cells.push(self.cells[n].clone());
        }
        assert(cells_view(cells@) =~= cells_view(self.cells@));
        OverlayRow { row_num: self.row_num, cells }
    }
}

impl OverlayRow {
    /// A row of cells that predict nothing yet, made at the given time.
    pub fn new_at(row_num: usize, num_cols: usize, epoch: u64, time: Instant) -> (res: Self)
        ensures
            res@ == OverlayRowView::fresh(row_num, num_cols as nat, epoch, time),
    {
        let mut cells: Vec<ConditionalOverlayCell> = Vec::new();
        while cells.len() < num_cols
            invariant
                cells@.len() <= num_cols,
                forall|i: int|
                    0 <= i < cells@.len() ==> (#[trigger] cells@[i])@ == OverlayCellView::fresh(
                        i as usize,
                        epoch,
                        time,
                    ),
            decreases num_cols - cells@.len(),
        {
            let n: usize = cells.len();
            cells.push(ConditionalOverlayCell::new_at(n, epoch, time));
        }
        let res = OverlayRow { row_num, cells };
        assert(res@ =~= OverlayRowView::fresh(row_num, num_cols as nat, epoch, time));
        res
    }

    /// A row of cells that predict nothing yet, made now.
    pub fn new(row_num: usize, num_cols: usize, epoch: u64) -> (res: Self)
        ensures
            exists|time: Instant|
                res@ == #[trigger] OverlayRowView::fresh(row_num, num_cols as nat, epoch, time),
    {
        Self::new_at(row_num, num_cols, epoch, Instant::now())
    }

    /// Resets the cells that are tentative no longer than `epoch`.
    fn kill(&mut self, epoch: u64)
        ensures
            final(self)@ == old(self)@.killed(epoch),
    {
        let ghost start = self@;
        let mut i: usize = 0;
        while i < self.cells.len()
            invariant
                i <= self.cells@.len(),
                self.cells@.len() == start.cells.len(),
                self.row_num == start.row_num,
                forall|k: int|
                    0 <= k < i ==> (#[trigger] self.cells@[k])@ == start.killed(epoch).cells[k],
                forall|k: int|
                    i <= k < self.cells@.len() ==> (#[trigger] self.cells@[k])@ == start.cells[k],
            decreases self.cells@.len() - i,
        {
            if self.cells[i].active && self.cells[i].tentative_until_epoch <= epoch {
                self.cells[i].reset();
            }
            i = i + 1;
        }
        assert(self@ =~= start.killed(epoch));
    }

    /// Resets every cell.
    fn clear(&mut self)
        ensures
            final(self)@ == old(self)@.cleared(),
    {
        let ghost start = self@;
        let mut i: usize = 0;
        while i < self.cells.len()
            invariant
                i <= self.cells@.len(),
                self.cells@.len() == start.cells.len(),
                self.row_num == start.row_num,
                forall|k: int|
                    0 <= k < i ==> (#[trigger] self.cells@[k])@ == start.cells[k].cleared(),
                forall|k: int|
                    i <= k < self.cells@.len() ==> (#[trigger] self.cells@[k])@ == start.cells[k],
            decreases self.cells@.len() - i,
        {
            self.cells[i].reset();
            i = i + 1;
        }
        assert(self@ =~= start.cleared());
    }

    /// Whether any cell is active.
    pub fn has_active(&self) -> (res: bool)
        ensures
            res == self@.any_active(),
    {
        let mut i: usize = 0;
        while i < self.cells.len()
            invariant
                i <= self.cells@.len(),
                forall|k: int| 0 <= k < i ==> !(#[trigger] self@.cells[k]).active,
            decreases self.cells@.len() - i,
        {
            if self.cells[i].active {
                assert(self@.cells[i as int].active);
                return true;
            }
            i = i + 1;
        }
        false
    }
}

/// Manages all overlay rows, each under its number, in the order of their numbers.
#[derive(Debug)]
pub struct Overlay {
    rows: Vec<(usize, OverlayRow)>,
}

/// What the rows of an overlay hold, each with its number.
pub open spec fn numbered_rows(rows: Seq<(usize, OverlayRow)>) -> Seq<(usize, OverlayRowView)> {
    Seq::new(rows.len(), |i: int| (rows[i].0, rows[i].1@))
}

/// Whether the numbers of the rows ascend.
pub open spec fn ascending(rows: Seq<(usize, OverlayRowView)>) -> bool {
    forall|i: int, j: int| 0 <= i < j < rows.len() ==> (#[trigger] rows[i]).0 < (#[trigger] rows[j]).0
}

/// How many rows come before the row with number `k`.
pub open spec fn slot(rows: Seq<(usize, OverlayRowView)>, k: usize) -> int
    decreases rows.len(),
{
    if rows.len() == 0 || rows[0].0 >= k {
        0
    } else {
        1 + slot(rows.drop_first(), k)
    }
}

/// Whether there is a row with number `k`.
pub open spec fn has_row(rows: Seq<(usize, OverlayRowView)>, k: usize) -> bool {
    slot(rows, k) < rows.len() && rows[slot(rows, k)].0 == k
}

/// Puts row `j` into a list of rows, before those with a larger number of their own.
pub open spec fn inserted(rows: Seq<(usize, OverlayRowView)>, list: Seq<int>, j: int) -> Seq<int>
    decreases list.len(),
{
    if list.len() == 0 || rows[list.last()].1.row_num <= rows[j].1.row_num {
        list.push(j)
    } else {
        inserted(rows, list.drop_last(), j).push(list.last())
    }
}

/// The first `n` rows in the order of their own numbers.
pub open spec fn order_upto(rows: Seq<(usize, OverlayRowView)>, n: int) -> Seq<int>
    decreases n,
{
    if n <= 0 {
        seq![]
    } else {
        inserted(rows, order_upto(rows, n - 1), n - 1)
    }
}

/// The rows in the order of their own numbers; of those with the same number, the one that is stored
/// first comes first.
pub open spec fn order(rows: Seq<(usize, OverlayRowView)>) -> Seq<int> {
    order_upto(rows, rows.len() as int)
}

/// Whether row `a` comes before row `b`.
pub open spec fn comes_before(rows: Seq<(usize, OverlayRowView)>, a: int, b: int) -> bool {
    rows[a].1.row_num < rows[b].1.row_num || rows[a].1.row_num == rows[b].1.row_num && a < b
}

/// Whether a list holds each of the first `n` rows, in order.
pub open spec fn lists_in_order(rows: Seq<(usize, OverlayRowView)>, list: Seq<int>, n: int) -> bool {
    &&& list.len() == n
    &&& forall|i: int| 0 <= i < n ==> 0 <= #[trigger] list[i] < n
    &&& forall|j: int| 0 <= j < n ==> #[trigger] list.contains(j)
    &&& forall|a: int, b: int|
        0 <= a < b < n ==> comes_before(rows, #[trigger] list[a], #[trigger] list[b])
}

/// The order holds every row once, by ascending numbers.
pub proof fn order_is_in_order(rows: Seq<(usize, OverlayRowView)>)
    ensures
        lists_in_order(rows, order(rows), rows.len() as int),
{
    order_upto_is_in_order(rows, rows.len() as int);
}

proof fn order_upto_is_in_order(rows: Seq<(usize, OverlayRowView)>, n: int)
    requires
        0 <= n <= rows.len(),
    ensures
        lists_in_order(rows, order_upto(rows, n), n),
    decreases n,
{
    if n > 0 {
        let list = order_upto(rows, n - 1);
        let next = order_upto(rows, n);
        order_upto_is_in_order(rows, n - 1);
        let p = insertion_point(rows, list, n - 1);
        assert forall|j: int| 0 <= j < n implies #[trigger] next.contains(j) by {
            if j == n - 1 {
                assert(next[p] == j);
            } else {
                assert(list.contains(j));
                let i = choose|i: int| 0 <= i < list.len() && list[i] == j;
                assert(next[if i < p {
                    i
                } else {
                    i + 1
                }] == j);
            }
        }
        assert forall|a: int, b: int| 0 <= a < b < n implies comes_before(
            rows,
            #[trigger] next[a],
            #[trigger] next[b],
        ) by {
            let x = if a < p {
                a
            } else {
                a - 1
            };
            let y = if b < p {
                b
            } else {
                b - 1
            };
            if a != p && b != p {
                assert(next[a] == list[x] && next[b] == list[y]);
                assert(comes_before(rows, list[x], list[y]));
            } else if a == p {
                assert(next[b] == list[y]);
                if y > p {
                    assert(comes_before(rows, list[p], list[y]));
                }
            } else {
                assert(next[a] == list[a]);
                if a < p - 1 {
                    assert(comes_before(rows, list[a], list[p - 1]));
                }
            }
        }
    }
}

/// Where a row is put in a list that is in order.
proof fn insertion_point(rows: Seq<(usize, OverlayRowView)>, list: Seq<int>, j: int) -> (p: int)
    ensures
        0 <= p <= list.len(),
        inserted(rows, list, j) == list.insert(p, j),
        p > 0 ==> rows[list[p - 1]].1.row_num <= rows[j].1.row_num,
        p < list.len() ==> rows[list[p]].1.row_num > rows[j].1.row_num,
    decreases list.len(),
{
    if list.len() == 0 || rows[list.last()].1.row_num <= rows[j].1.row_num {
        assert(list.push(j) =~= list.insert(list.len() as int, j));
        list.len() as int
    } else {
        let p = insertion_point(rows, list.drop_last(), j);
        assert(list.drop_last().insert(p, j).push(list.last()) =~= list.insert(p, j));
        p
    }
}

/// A position after which all numbers are larger, and before which none is, is the insertion point.
proof fn inserts_at(rows: Seq<(usize, OverlayRowView)>, list: Seq<int>, j: int, p: int)
    requires
        0 <= p <= list.len(),
        p > 0 ==> rows[list[p - 1]].1.row_num <= rows[j].1.row_num,
        forall|i: int| p <= i < list.len() ==> rows[#[trigger] list[i]].1.row_num > rows[j].1.row_num,
    ensures
        inserted(rows, list, j) == list.insert(p, j),
    decreases list.len(),
{
    if p == list.len() {
        assert(list.push(j) =~= list.insert(p, j));
    } else {
        let init = list.drop_last();
        assert(list.last() == list[list.len() - 1]);
        assert forall|i: int| p <= i < init.len() implies rows[#[trigger] init[i]].1.row_num
            > rows[j].1.row_num by {
            assert(init[i] == list[i]);
        }
        inserts_at(rows, init, j, p);
        assert(init.insert(p, j).push(list.last()) =~= list.insert(p, j));
    }
}

/// Where each row is stored under its own number, the rows are stored in order.
pub proof fn stored_in_order(rows: Seq<(usize, OverlayRowView)>)
    requires
        ascending(rows),
        forall|i: int| 0 <= i < rows.len() ==> (#[trigger] rows[i]).1.row_num == rows[i].0,
    ensures
        order(rows) == Seq::new(rows.len(), |i: int| i),
{
    stored_in_order_upto(rows, rows.len() as int);
}

proof fn stored_in_order_upto(rows: Seq<(usize, OverlayRowView)>, n: int)
    requires
        ascending(rows),
        forall|i: int| 0 <= i < rows.len() ==> (#[trigger] rows[i]).1.row_num == rows[i].0,
        0 <= n <= rows.len(),
    ensures
        order_upto(rows, n) == Seq::new(n as nat, |i: int| i),
    decreases n,
{
    if n > 0 {
        stored_in_order_upto(rows, n - 1);
        if n > 1 {
            assert(rows[n - 2].0 < rows[n - 1].0);
        }
        assert(order_upto(rows, n) =~= Seq::new(n as nat, |i: int| i));
    } else {
        assert(order_upto(rows, n) =~= Seq::new(n as nat, |i: int| i));
    }
}

/// The rows with the row with number `k` set.
pub open spec fn with_row(
    rows: Seq<(usize, OverlayRowView)>,
    k: usize,
    row: OverlayRowView,
) -> Seq<(usize, OverlayRowView)> {
    if has_row(rows, k) {
        rows.update(slot(rows, k), (k, row))
    } else {
        rows.insert(slot(rows, k), (k, row))
    }
}

/// The row with number `k`; if there is none yet, a fresh one.
pub open spec fn row_or_fresh(
    rows: Seq<(usize, OverlayRowView)>,
    k: usize,
    num_cols: nat,
    epoch: u64,
    time: Instant,
) -> OverlayRowView {
    if has_row(rows, k) {
        rows[slot(rows, k)].1
    } else {
        OverlayRowView::fresh(k, num_cols, epoch, time)
    }
}

/// The rows whose number is below `max_row`.
pub open spec fn rows_below(rows: Seq<(usize, OverlayRowView)>, max_row: usize) -> Seq<
    (usize, OverlayRowView),
> {
    rows.take(slot(rows, max_row))
}

/// Whether any cell of any row is active.
pub open spec fn rows_active(rows: Seq<(usize, OverlayRowView)>) -> bool {
    exists|i: int| 0 <= i < rows.len() && (#[trigger] rows[i]).1.any_active()
}

/// Where a row with number `k` is or would be.
pub proof fn slot_bounds(rows: Seq<(usize, OverlayRowView)>, k: usize)
    requires
        ascending(rows),
    ensures
        0 <= slot(rows, k) <= rows.len(),
        forall|i: int| 0 <= i < slot(rows, k) ==> (#[trigger] rows[i]).0 < k,
        forall|i: int| slot(rows, k) <= i < rows.len() ==> (#[trigger] rows[i]).0 >= k,
    decreases rows.len(),
{
    if rows.len() > 0 && rows[0].0 < k {
        let rest = rows.drop_first();
        assert(ascending(rest)) by {
            assert forall|i: int, j: int| 0 <= i < j < rest.len() implies (#[trigger] rest[i]).0 < (
            #[trigger] rest[j]).0 by {
                assert(rest[i] == rows[i + 1] && rest[j] == rows[j + 1]);
            }
        }
        slot_bounds(rest, k);
        assert forall|i: int| 0 <= i < slot(rows, k) implies (#[trigger] rows[i]).0 < k by {
            if i > 0 {
                assert(rows[i] == rest[i - 1]);
            }
        }
        assert forall|i: int| slot(rows, k) <= i < rows.len() implies (#[trigger] rows[i]).0
            >= k by {
            assert(rows[i] == rest[i - 1]);
        }
    } else if rows.len() > 0 {
        assert forall|i: int| 0 <= i < rows.len() implies (#[trigger] rows[i]).0 >= k by {
            if i > 0 {
                assert(rows[0].0 < rows[i].0);
            }
        }
    }
}

/// A position that parts the smaller numbers from the others is the slot.
pub proof fn slot_is(rows: Seq<(usize, OverlayRowView)>, k: usize, i: int)
    requires
        ascending(rows),
        0 <= i <= rows.len(),
        forall|j: int| 0 <= j < i ==> (#[trigger] rows[j]).0 < k,
        forall|j: int| i <= j < rows.len() ==> (#[trigger] rows[j]).0 >= k,
    ensures
        slot(rows, k) == i,
{
    slot_bounds(rows, k);
    let s = slot(rows, k);
    if s < i {
        assert(rows[s].0 < k);
    } else if i < s {
        assert(rows[i].0 < k);
    }
}

/// Setting a row keeps the numbers ascending and the other rows as they are, and reading it gives
/// it back.
pub proof fn with_row_reads_back(rows: Seq<(usize, OverlayRowView)>, k: usize, row: OverlayRowView)
    requires
        ascending(rows),
    ensures
        ascending(with_row(rows, k, row)),
        slot(with_row(rows, k, row), k) == slot(rows, k),
        has_row(with_row(rows, k, row), k),
        with_row(rows, k, row)[slot(rows, k)] == (k, row),
        forall|i: int|
            0 <= i < rows.len() && (#[trigger] rows[i]).0 != k ==> with_row(rows, k, row).contains(
                rows[i],
            ),
{
    slot_bounds(rows, k);
    let s = slot(rows, k);
    let next = with_row(rows, k, row);
    if has_row(rows, k) {
        assert(ascending(next)) by {
            assert forall|i: int, j: int| 0 <= i < j < next.len() implies (#[trigger] next[i]).0 < (
            #[trigger] next[j]).0 by {
                assert(rows[i].0 < rows[j].0);
            }
        }
        assert forall|i: int| 0 <= i < rows.len() && (#[trigger] rows[i]).0
            != k implies next.contains(rows[i]) by {
            assert(next[i] == rows[i]);
        }
        slot_is(next, k, s);
    } else {
        assert(ascending(next)) by {
            assert forall|i: int, j: int| 0 <= i < j < next.len() implies (#[trigger] next[i]).0 < (
            #[trigger] next[j]).0 by {
                let a = if i < s {
                    i
                } else {
                    i - 1
                };
                let b = if j < s {
                    j
                } else {
                    j - 1
                };
                if i != s && j != s {
                    assert(rows[a].0 < rows[b].0);
                    assert(next[i] == rows[a] && next[j] == rows[b]);
                } else if i == s {
                    assert(next[j] == rows[j - 1]);
                    assert(rows[j - 1].0 >= k);
                    if rows[j - 1].0 == k {
                        if j - 1 > s {
                            assert(rows[s].0 < rows[j - 1].0);
                        }
                    }
                } else {
                    assert(next[i] == rows[i]);
                }
            }
        }
        assert forall|i: int| 0 <= i < rows.len() && (#[trigger] rows[i]).0
            != k implies next.contains(rows[i]) by {
            if i < s {
                assert(next[i] == rows[i]);
            } else {
                assert(next[i + 1] == rows[i]);
            }
        }
        slot_is(next, k, s);
    }
}

impl View for Overlay {
    type V = Seq<(usize, OverlayRowView)>;

    closed spec fn view(&self) -> Seq<(usize, OverlayRowView)> {
        numbered_rows(self.rows@)
    }
}

impl Clone for Overlay {
    fn clone(&self) -> (res: Self)
        ensures
            res@ == self@,
    {
        let mut rows: Vec<(usize, OverlayRow)> = Vec::new();
        while rows.len() < self.rows.len()
            invariant
                rows@.len() <= self.rows@.len(),
                forall|i: int|
                    0 <= i < rows@.len() ==> (#[trigger] rows@[i]).0 == self.rows@[i].0
                        && rows@[i].1@ == self.rows@[i].1@,
            decreases self.rows@.len() - rows@.len(),
        {
            let n: usize = rows.len();
            rows.push((self.rows[n].0, self.rows[n].1.clone()));
        }
        assert(numbered_rows(rows@) =~= numbered_rows(self.rows@));
        Overlay { rows }
    }
}

impl Default for Overlay {
    fn default() -> (res: Self)
        ensures
            res@ == Seq::<(usize, OverlayRowView)>::empty(),
    {
        Self::new()
    }
}

impl Overlay {
    /// Whether the rows are in order.
    pub open spec fn wf(&self) -> bool {
        ascending(self@)
    }

    /// An overlay without rows.
    pub fn new() -> (res: Self)
        ensures
            res.wf(),
            res@ == Seq::<(usize, OverlayRowView)>::empty(),
    {
        let res = Overlay { rows: Vec::new() };
        assert(res@ =~= Seq::<(usize, OverlayRowView)>::empty());
        res
    }

    /// How many rows come before the row with number `row_num`.
    fn find(&self, row_num: usize) -> (i: usize)
        requires
            self.wf(),
        ensures
            i == slot(self@, row_num),
            i <= self.rows@.len(),
    {
        let mut i: usize = 0;
        while i < self.rows.len() && self.rows[i].0 < row_num
            invariant
                i <= self.rows@.len(),
                forall|j: int| 0 <= j < i ==> (#[trigger] self@[j]).0 < row_num,
            decreases self.rows@.len() - i,
        {
            assert(self@[i as int].0 == self.rows@[i as int].0);
            i = i + 1;
        }
        proof {
            assert forall|j: int| i <= j < self@.len() implies (#[trigger] self@[j]).0
                >= row_num by {
                assert(self@[i as int].0 == self.rows@[i as int].0);
                if i < j {
                    assert(self@[i as int].0 < self@[j].0);
                }
            }
            slot_is(self@, row_num, i as int);
        }
        i
    }

    /// The row with the given number; if there is none yet, it is made at the given time.
    pub fn get_or_make_row_at(
        &mut self,
        row_num: usize,
        num_cols: usize,
        epoch: u64,
        time: Instant,
    ) -> (res: &mut OverlayRow)
        requires
            old(self).wf(),
        ensures
            res@ == row_or_fresh(old(self)@, row_num, num_cols as nat, epoch, time),
            final(self)@ == with_row(old(self)@, row_num, final(res)@),
            final(self).wf(),
    {
        let i: usize = self.find(row_num);
        if i >= self.rows.len() || self.rows[i].0 != row_num {
            self.rows.insert(i, (row_num, OverlayRow::new_at(row_num, num_cols, epoch, time)));
        }
        proof {
            assert forall|row: OverlayRowView| ascending(#[trigger] with_row(old(self)@, row_num, row)) by {
                with_row_reads_back(old(self)@, row_num, row);
            }
        }
        &mut self.rows[i].1
    }

    /// The row with the given number; if there is none yet, it is made now.
    pub fn get_or_make_row(&mut self, row_num: usize, num_cols: usize, epoch: u64) -> (res:
        &mut OverlayRow)
        requires
            old(self).wf(),
        ensures
            exists|time: Instant|
                res@ == #[trigger] row_or_fresh(
                    old(self)@,
                    row_num,
                    num_cols as nat,
                    epoch,
                    time,
                ),
            final(self)@ == with_row(old(self)@, row_num, final(res)@),
            final(self).wf(),
    {
        self.get_or_make_row_at(row_num, num_cols, epoch, Instant::now())
    }

    /// The row with the given number, if there is one.
    pub fn get_row(&self, row_num: usize) -> (res: Option<&OverlayRow>)
        requires
            self.wf(),
        ensures
            match res {
                Some(row) => has_row(self@, row_num) && row@ == self@[slot(self@, row_num)].1,
                None => !has_row(self@, row_num),
            },
    {
        let i: usize = self.find(row_num);
        if i < self.rows.len() && self.rows[i].0 == row_num {
            Some(&self.rows[i].1)
        } else {
            None
        }
    }

    /// The row with the given number for writing, if there is one.
    pub fn get_row_mut(&mut self, row_num: usize) -> (res: Option<&mut OverlayRow>)
        requires
            old(self).wf(),
        ensures
            match res {
                Some(row) => {
                    &&& has_row(old(self)@, row_num)
                    &&& row@ == old(self)@[slot(old(self)@, row_num)].1
                    &&& final(self)@ == with_row(old(self)@, row_num, final(row)@)
                    &&& ascending(with_row(old(self)@, row_num, final(row)@))
                },
                None => !has_row(old(self)@, row_num) && final(self)@ == old(self)@,
            },
            final(self).wf(),
    {
        let i: usize = self.find(row_num);
        if i < self.rows.len() && self.rows[i].0 == row_num {
            proof {
                assert forall|row: OverlayRowView|
                    ascending(#[trigger] with_row(old(self)@, row_num, row)) by {
                    with_row_reads_back(old(self)@, row_num, row);
                }
            }
            Some(&mut self.rows[i].1)
        } else {
            None
        }
    }

    /// The rows in the order of their own numbers, by their positions.
    fn order(&self) -> (res: Vec<usize>)
        ensures
            res@.len() == self@.len(),
            forall|i: int|
                0 <= i < res@.len() ==> #[trigger] res@[i] == order(self@)[i] && res@[i]
                    < self@.len(),
    {
        let mut list: Vec<usize> = Vec::new();
        let mut n: usize = 0;
        while n < self.rows.len()
            invariant
                n <= self.rows@.len(),
                list@.len() == n,
                order_upto(self@, n as int).len() == n,
                forall|i: int|
                    0 <= i < n ==> #[trigger] list@[i] == order_upto(self@, n as int)[i]
                        && list@[i] < n,
            decreases self.rows@.len() - n,
        {
            let ghost done = order_upto(self@, n as int);
            let num: usize = self.rows[n].1.row_num;
            let mut p: usize = n;
            while p > 0 && self.rows[list[p - 1]].1.row_num > num
                invariant
                    p <= n < self.rows@.len(),
                    list@.len() == n,
                    done.len() == n,
                    num == self@[n as int].1.row_num,
                    forall|i: int| 0 <= i < n ==> #[trigger] list@[i] == done[i] && list@[i] < n,
                    forall|i: int| p <= i < n ==> self@[#[trigger] done[i]].1.row_num > num,
                decreases p,
            {
                assert(self@[done[p - 1]].1.row_num == self.rows@[list@[p - 1] as int].1.row_num);
                p = p - 1;
            }
            proof {
                if p > 0 {
                    assert(list@[p - 1] == done[p - 1]);
                    assert(self@[done[p - 1]].1.row_num
                        == self.rows@[list@[p - 1] as int].1.row_num);
                }
                inserts_at(self@, done, n as int, p as int);
            }
            list.insert(p, n);
            n = n + 1;
        }
        list
    }

    /// All rows in the order of their own numbers.
    pub fn rows(&self) -> (res: Vec<&OverlayRow>)
        ensures
            res@.len() == self@.len(),
            forall|i: int|
                0 <= i < res@.len() ==> (#[trigger] res@[i])@ == self@[order(self@)[i]].1,
    {
        let list = self.order();
        let mut res: Vec<&OverlayRow> = Vec::new();
        while res.len() < list.len()
            invariant
                res@.len() <= list@.len(),
                list@.len() == self@.len(),
                forall|i: int|
                    0 <= i < list@.len() ==> #[trigger] list@[i] == order(self@)[i] && list@[i]
                        < self@.len(),
                forall|i: int|
                    0 <= i < res@.len() ==> (#[trigger] res@[i])@ == self@[order(self@)[i]].1,
            decreases list@.len() - res@.len(),
        {
            let n: usize = res.len();
            assert(list@[n as int] == order(self@)[n as int]);
            res.push(&self.rows[list[n]].1);
        }
        res
    }

    /// The number of rows.
    pub fn row_count(&self) -> (res: usize)
        ensures
            res == self@.len(),
    {
        self.rows.len()
    }

    /// The row that comes at position `i` in the order of the rows' own numbers, for writing.
    pub fn rows_mut(&mut self, i: usize) -> (res: Option<&mut OverlayRow>)
        requires
            old(self).wf(),
        ensures
            match res {
                Some(row) => {
                    let k = order(old(self)@)[i as int];
                    &&& i < old(self)@.len()
                    &&& row@ == old(self)@[k].1
                    &&& final(self)@ == old(self)@.update(k, (old(self)@[k].0, final(row)@))
                },
                None => i >= old(self)@.len() && final(self)@ == old(self)@,
            },
            final(self).wf(),
    {
        let list = self.order();
        if i < list.len() {
            assert(list@[i as int] == order(self@)[i as int]);
            self.stored_row(list[i])
        } else {
            None
        }
    }

    /// The row that is stored at position `i`, for writing.
    fn stored_row(&mut self, i: usize) -> (res: Option<&mut OverlayRow>)
        requires
            old(self).wf(),
        ensures
            match res {
                Some(row) => {
                    &&& i < old(self)@.len()
                    &&& row@ == old(self)@[i as int].1
                    &&& final(self)@ == old(self)@.update(
                        i as int,
                        (old(self)@[i as int].0, final(row)@),
                    )
                },
                None => i >= old(self)@.len() && final(self)@ == old(self)@,
            },
            final(self).wf(),
    {
        if i < self.rows.len() {
            proof {
                assert forall|row: OverlayRowView|
                    ascending(
                        #[trigger] old(self)@.update(i as int, (old(self)@[i as int].0, row)),
                    ) by {
                    let next = old(self)@.update(i as int, (old(self)@[i as int].0, row));
                    assert forall|a: int, b: int| 0 <= a < b < next.len() implies (
                    #[trigger] next[a]).0 < (#[trigger] next[b]).0 by {
                        assert(old(self)@[a].0 < old(self)@[b].0);
                    }
                }
            }
            Some(&mut self.rows[i].1)
        } else {
            None
        }
    }

    /// Removes the rows outside the terminal bounds.
    pub fn prune(&mut self, max_row: usize)
        requires
            old(self).wf(),
        ensures
            final(self).wf(),
            final(self)@ == rows_below(old(self)@, max_row),
    {
        let i: usize = self.find(max_row);
        self.rows.truncate(i);
        proof {
            assert(self@ =~= rows_below(old(self)@, max_row));
            assert forall|a: int, b: int| 0 <= a < b < self@.len() implies (#[trigger] self@[a]).0
                < (#[trigger] self@[b]).0 by {
                assert(old(self)@[a].0 < old(self)@[b].0);
            }
        }
    }

    /// Clears all active predictions that are tentative no longer than `epoch`.
    pub fn kill_epoch(&mut self, epoch: u64)
        requires
            old(self).wf(),
        ensures
            final(self).wf(),
            final(self)@ == Seq::new(
                old(self)@.len(),
                |i: int| (old(self)@[i].0, old(self)@[i].1.killed(epoch)),
            ),
    {
        let ghost start = self@;
        let mut i: usize = 0;
        while i < self.rows.len()
            invariant
                i <= self.rows@.len(),
                self@.len() == start.len(),
                forall|k: int|
                    0 <= k < i ==> #[trigger] self@[k] == (start[k].0, start[k].1.killed(epoch)),
                forall|k: int| i <= k < start.len() ==> #[trigger] self@[k] == start[k],
            decreases self.rows@.len() - i,
        {
            let ghost before = self@;
            self.rows[i].1.kill(epoch);
            assert(self@[i as int] == (before[i as int].0, before[i as int].1.killed(epoch)));
            assert forall|k: int| 0 <= k < start.len() && k != i implies #[trigger] self@[k]
                == before[k] by {}
            i = i + 1;
        }
        proof {
            let next = Seq::new(start.len(), |i: int| (start[i].0, start[i].1.killed(epoch)));
            assert(self@ =~= next);
            assert forall|a: int, b: int| 0 <= a < b < next.len() implies (#[trigger] next[a]).0 < (
            #[trigger] next[b]).0 by {
                assert(start[a].0 < start[b].0);
            }
        }
    }

    /// Resets all cells.
    pub fn reset_all(&mut self)
        requires
            old(self).wf(),
        ensures
            final(self).wf(),
            final(self)@ == Seq::new(
                old(self)@.len(),
                |i: int| (old(self)@[i].0, old(self)@[i].1.cleared()),
            ),
    {
        let ghost start = self@;
        let mut i: usize = 0;
        while i < self.rows.len()
            invariant
                i <= self.rows@.len(),
                self@.len() == start.len(),
                forall|k: int|
                    0 <= k < i ==> #[trigger] self@[k] == (start[k].0, start[k].1.cleared()),
                forall|k: int| i <= k < start.len() ==> #[trigger] self@[k] == start[k],
            decreases self.rows@.len() - i,
        {
            let ghost before = self@;
            self.rows[i].1.clear();
            assert(self@[i as int] == (before[i as int].0, before[i as int].1.cleared()));
            assert forall|k: int| 0 <= k < start.len() && k != i implies #[trigger] self@[k]
                == before[k] by {}
            i = i + 1;
        }
        proof {
            let next = Seq::new(start.len(), |i: int| (start[i].0, start[i].1.cleared()));
            assert(self@ =~= next);
            assert forall|a: int, b: int| 0 <= a < b < next.len() implies (#[trigger] next[a]).0 < (
            #[trigger] next[b]).0 by {
                assert(start[a].0 < start[b].0);
            }
        }
    }

    /// Whether no cell is active.
    pub fn is_empty(&self) -> (res: bool)
        ensures
            res == !rows_active(self@),
    {
        let mut i: usize = 0;
        while i < self.rows.len()
            invariant
                i <= self.rows@.len(),
                forall|k: int| 0 <= k < i ==> !(#[trigger] self@[k]).1.any_active(),
            decreases self.rows@.len() - i,
        {
            if self.rows[i].1.has_active() {
                assert(self@[i as int].1.any_active());
                return false;
            }
            i = i + 1;
        }
        true
    }
}

/// A pruned overlay holds exactly the rows inside the bounds.
pub proof fn prune_keeps_bounds(rows: Seq<(usize, OverlayRowView)>, max_row: usize)
    requires
        ascending(rows),
    ensures
        forall|i: int|
            0 <= i < rows.len() ==> ((#[trigger] rows[i]).0 < max_row <==> rows_below(
                rows,
                max_row,
            ).contains(rows[i])),
        forall|k: usize|
            #![trigger has_row(rows_below(rows, max_row), k)]
            has_row(rows_below(rows, max_row), k) <==> has_row(rows, k) && k < max_row,
{
    let kept = rows_below(rows, max_row);
    let s = slot(rows, max_row);
    slot_bounds(rows, max_row);
    assert(ascending(kept)) by {
        assert forall|a: int, b: int| 0 <= a < b < kept.len() implies (#[trigger] kept[a]).0 < (
        #[trigger] kept[b]).0 by {
            assert(rows[a].0 < rows[b].0);
        }
    }
    assert forall|i: int| 0 <= i < rows.len() implies ((#[trigger] rows[i]).0 < max_row
        <==> kept.contains(rows[i])) by {
        if i < s {
            assert(kept[i] == rows[i]);
        } else if kept.contains(rows[i]) {
            let j = choose|j: int| 0 <= j < kept.len() && kept[j] == rows[i];
            assert(rows[j].0 < rows[i].0);
        }
    }
    assert forall|k: usize| #[trigger] has_row(kept, k) <==> has_row(rows, k) && k < max_row by {
        slot_bounds(kept, k);
        slot_bounds(rows, k);
        let a = slot(kept, k);
        let b = slot(rows, k);
        if has_row(kept, k) {
            assert(kept[a] == rows[a]);
            assert forall|j: int| a <= j < rows.len() implies (#[trigger] rows[j]).0 >= k by {
                if a < j {
                    assert(rows[a].0 < rows[j].0);
                }
            }
            assert forall|j: int| 0 <= j < a implies (#[trigger] rows[j]).0 < k by {
                assert(rows[j].0 < rows[a].0);
            }
            slot_is(rows, k, a);
        }
        if has_row(rows, k) && k < max_row {
            assert(rows[b].0 < max_row);
            slot_is(kept, k, b);
        }
    }
}

/// A cell that is cleared predicts nothing and remembers nothing. One that is retired predicts
/// nothing either, but remembers the character that it predicted, if that was known.
pub proof fn retired_cells_remember(cell: OverlayCellView)
    ensures
        !cell.cleared().active && !cell.cleared().unknown,
        cell.cleared().original_contents.len() == 0,
        cell.cleared().expiration_frame == u64::MAX,
        cell.cleared().tentative_until_epoch == u64::MAX,
        cell.cleared().col == cell.col && cell.cleared().replacement == cell.replacement,
        !cell.retired().active && !cell.retired().unknown,
        cell.retired().expiration_frame == u64::MAX,
        cell.retired().col == cell.col,
        cell.active && !cell.unknown ==> cell.retired().original_contents
            == cell.original_contents.push(cell.replacement),
        !cell.active || cell.unknown ==> cell.retired().original_contents.len() == 0,
{
}

/// How a cell stands: one that is not active in no way; one off the screen is wrong; one that the
/// server has not answered waits; one whose character is not known, or a blank where the server
/// shows one, or a character that was predicted here before, is right without merit; any other is
/// right if the server shows its character, and wrong if not.
pub proof fn cells_are_judged(
    cell: OverlayCellView,
    shown: char,
    height: int,
    width: int,
    late_ack: int,
)
    ensures
        ({
            let v = cell.validity(shown, height, width, late_ack);
            let lost = height == 0 || cell.col >= width;
            let waits = late_ack < cell.expiration_frame;
            let known = cell.active && !lost && !waits && !cell.unknown;
            let seen = exists|i: int|
                0 <= i < cell.original_contents.len() && #[trigger] cell.original_contents[i]
                    == shown;
            &&& v == Validity::Inactive <==> !cell.active
            &&& v == Validity::Pending <==> cell.active && !lost && waits
            &&& v == Validity::IncorrectOrExpired <==> cell.active && lost || known && shown
                != cell.replacement
            &&& v == Validity::Correct <==> known && shown == cell.replacement && shown != ' '
                && !seen
            &&& v == Validity::CorrectNoCredit <==> cell.active && !lost && !waits && (cell.unknown
                || shown == cell.replacement && (shown == ' ' || seen))
        }),
{
    let old = cell.original_contents;
    if old.contains(shown) {
        let i = choose|i: int| 0 <= i < old.len() && old[i] == shown;
        assert(old[i] == shown);
    }
    if exists|i: int| 0 <= i < old.len() && #[trigger] old[i] == shown {
        assert(old.contains(shown));
    }
}

/// How a cursor stands: one that is not active in no way; one off the screen is wrong; one that the
/// server has not answered waits; any other is right if the server's cursor is there, and else wrong.
pub proof fn cursors_are_judged(
    cursor: ConditionalCursorMove,
    row: int,
    col: int,
    height: int,
    width: int,
    late_ack: int,
)
    ensures
        ({
            let v = cursor_validity(cursor, row, col, height, width, late_ack);
            let lost = cursor.row >= height || cursor.col >= width;
            let waits = late_ack < cursor.expiration_frame;
            let there = cursor.row == row && cursor.col == col;
            &&& v == Validity::Inactive <==> !cursor.active
            &&& v == Validity::Pending <==> cursor.active && !lost && waits
            &&& v == Validity::Correct <==> cursor.active && !lost && !waits && there
            &&& v == Validity::IncorrectOrExpired <==> cursor.active && (lost || !waits && !there)
            &&& v != Validity::CorrectNoCredit
        }),
{
}

/// A cell starts inactive, in its column and in the epoch of its row, and remembers nothing.
pub proof fn cells_start_inactive(col: usize, epoch: u64, time: Instant)
    ensures
        ({
            let cell = OverlayCellView::fresh(col, epoch, time);
            &&& !cell.active && !cell.unknown
            &&& cell.col == col && cell.tentative_until_epoch == epoch
            &&& cell.prediction_time == time && cell.expiration_frame == 0
            &&& cell.replacement == ' ' && cell.original_contents.len() == 0
        }),
{
}

} // verus!
