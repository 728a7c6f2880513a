//! The state of a client, and what it does with keys, packets and the clock.

use crate::client::host_message;
use crate::client::host_message::extract_host_message;
use crate::network::connection;
use crate::network::connection::Address;
use crate::network::fragment::Fragment;
use crate::network::transport::DiffView;
use crate::network::transport::ReceivedDiff;
use crate::network::transport::SendState;
use crate::network::transport::SenderView;
use crate::network::transport::Transport;
use crate::network::transport::TransportView;
use crate::prediction::engine;
use crate::prediction::engine::DisplayPreference;
use crate::prediction::engine::EngineView;
use crate::prediction::engine::PredictionEngine;
use crate::prediction::notification::NotificationEngine;
use crate::prediction::notification::NotificationView;
use crate::prediction::overlay::OverlayRowView;
use crate::proto::client;
use crate::statesync::user_stream;
use crate::statesync::user_stream::UserEvent;
use crate::statesync::user_stream::UserStream;
use crate::terminal::snapshot::ScreenSnapshot;
use crate::terminal::snapshot::ScreenView;
use crate::time;
use crate::time::Instant;
use vstd::prelude::*;
use vstd::string::StrSliceExecFns;

verus! {

/// How many repetitions of the handshake may follow one another on ticks that are all due. A tick
/// that is not due starts the count anew.
pub const MAX_HANDSHAKE_RETRIES: u32 = 10;

/// How long to wait for an answer to the handshake.
pub const HANDSHAKE_TIMEOUT_MS: u64 = 2000;

/// A year: so long after the server was heard no handshake is due.
pub const NO_HANDSHAKE_MS: u64 = 31_536_000_000;

/// Without a word from the server for longer than this, the connection is lost.
pub const CONNECTION_LOST_MS: u64 = 15000;

/// Waits for the first answer of the server.
#[derive(Debug, Clone, Copy, PartialEq, Eq, Structural)]
pub struct Handshake {
    pub retries: u32,
    pub deadline: Instant,
}

impl Handshake {
    /// The first message was sent at a time.
    pub open spec fn started(now: Instant) -> Handshake {
        Handshake { retries: 0, deadline: time::later_by(now, HANDSHAKE_TIMEOUT_MS as nat) }
    }

    /// The server has answered.
    pub open spec fn answered(now: Instant) -> Handshake {
        Handshake { retries: 0, deadline: time::later_by(now, NO_HANDSHAKE_MS as nat) }
    }

    /// Whether the first message is to be sent again.
    pub open spec fn due(self, now: Instant) -> bool {
        self.retries < MAX_HANDSHAKE_RETRIES && now.nanos >= self.deadline.nanos
    }

    /// After the clock was looked at.
    pub open spec fn after_tick(self, now: Instant) -> Handshake {
        if self.due(now) {
            Handshake {
                retries: (self.retries + 1) as u32,
                deadline: time::later_by(now, HANDSHAKE_TIMEOUT_MS as nat),
            }
        } else {
            Handshake { retries: 0, ..self }
        }
    }

    /// The first message was sent at a time.
    pub fn new(now: Instant) -> (res: Self)
        ensures
            res == Self::started(now),
    {
        Handshake { retries: 0, deadline: now.plus_millis(HANDSHAKE_TIMEOUT_MS) }
    }

    /// The server was heard: no more retransmission.
    pub fn heard(&mut self, now: Instant)
        ensures
            *final(self) == Self::answered(now),
    {
        self.retries = 0;
        self.deadline = now.plus_millis(NO_HANDSHAKE_MS);
    }

    /// Looks at the clock. Tells whether the first message is to be sent again.
    pub fn tick(&mut self, now: Instant) -> (res: bool)
        ensures
            res == old(self).due(now),
            *final(self) == old(self).after_tick(now),
    {
        if self.retries < MAX_HANDSHAKE_RETRIES && now.nanos >= self.deadline.nanos {
            self.retries = self.retries + 1;
            self.deadline = now.plus_millis(HANDSHAKE_TIMEOUT_MS);
            true
        } else {
            self.retries = 0;
            false
        }
    }
}

/// The character that a screen shows at a position: the first of its cell, or a blank.
pub open spec fn shown_char(screen: ScreenView, row: usize, col: usize) -> char {
    let y = row as int % 0x1_0000;
    let x = col as int % 0x1_0000;
    if y < screen.rows.len() && x < screen.rows[y].len() && screen.rows[y][x].text.len() > 0 {
        screen.rows[y][x].text[0]
    } else {
        ' '
    }
}

/// What a screen shows where an overlay predicts something.
pub open spec fn shown_row(screen: ScreenView, row: OverlayRowView) -> Seq<char> {
    Seq::new(row.cells.len(), |i: int| shown_char(screen, row.row_num, row.cells[i].col))
}

/// What a screen shows where an overlay predicts something, row by row.
pub open spec fn shown_rows(screen: ScreenView, rows: Seq<(usize, OverlayRowView)>) -> Seq<
    Seq<char>,
> {
    Seq::new(rows.len(), |r: int| shown_row(screen, rows[r].1))
}

/// The character that a screen shows at a position.
fn char_at(snap: &ScreenSnapshot, row: usize, col: usize) -> (res: char)
    ensures
        res == shown_char(snap@, row, col),
{
    let x: u16 = (col % 0x1_0000) as u16;
    let y: u16 = (row % 0x1_0000) as u16;
    match snap.cell(x, y) {
        Some(cell) => {
            assert(cell@ == snap@.rows[y as int][x as int]);
            if cell.text.as_str().is_empty() {
                ' '
            } else {
                cell.text.as_str().get_char(0)
            }
        },
        None => ' ',
    }
}

/// Where the cursor is, by row and column: where it is predicted to be, or where it is `shown`.
pub open spec fn cursor_of(e: EngineView, shown: (usize, usize)) -> (usize, usize) {
    if e.cursors.len() > 0 && e.cursors.last().active {
        (e.cursors.last().row, e.cursors.last().col)
    } else {
        shown
    }
}

/// The predictions after a byte was typed. A byte that cannot be predicted changes nothing.
pub open spec fn after_byte(
    e: EngineView,
    byte: u8,
    shown: (usize, usize),
    cols: u16,
    rows: u16,
    now: Instant,
) -> EngineView {
    let (row, col) = cursor_of(e, shown);
    if e.takes(byte as char, col, cols as usize) {
        e.typed(byte as char, row, col, cols as usize, rows as usize, now)
    } else {
        e
    }
}

/// The predictions after the first `n` of some bytes were typed.
pub open spec fn after_bytes(
    e: EngineView,
    bytes: Seq<u8>,
    n: int,
    shown: (usize, usize),
    cols: u16,
    rows: u16,
    now: Instant,
) -> EngineView
    decreases n,
{
    if n <= 0 {
        e
    } else {
        after_byte(
            after_bytes(e, bytes, n - 1, shown, cols, rows, now),
            bytes[n - 1],
            shown,
            cols,
            rows,
            now,
        )
    }
}

/// Types bytes: they join what the user did, and what they will do is predicted. `shown` is where the
/// cursor is shown, by row and column.
pub(crate) fn type_bytes(
    user_stream: &mut UserStream,
    prediction: &mut PredictionEngine,
    bytes: &Vec<u8>,
    shown: (usize, usize),
    cols: u16,
    rows: u16,
    now: Instant,
)
    requires
        old(prediction).wf(),
    ensures
        final(prediction).wf(),
        final(user_stream)@ == old(user_stream)@ + user_stream::key_events(bytes@),
        final(prediction)@ == after_bytes(
            old(prediction)@,
            bytes@,
            bytes@.len() as int,
            shown,
            cols,
            rows,
            now,
        ),
{
    let ghost typed = user_stream@;
    let ghost predicted = prediction@;
    let mut i: usize = 0;
    assert(user_stream@ =~= typed + user_stream::key_events(bytes@.take(0)));
    while i < bytes.len()
        invariant
            i <= bytes@.len(),
            prediction.wf(),
            user_stream@ == typed + user_stream::key_events(bytes@.take(i as int)),
            prediction@ == after_bytes(predicted, bytes@, i as int, shown, cols, rows, now),
        decreases bytes@.len() - i,
    {
        let byte: u8 = bytes[i];
        user_stream.push_key(byte);
        let (row, col) = match prediction.cursor_pos() {
            Some(pos) => pos,
            None => shown,
        };
        if prediction.takes(byte as char, col, cols as usize) {
            prediction.new_user_byte_at(
                byte as char,
                row,
                col,
                cols as usize,
                rows as usize,
                now,
            );
        }
        i = i + 1;
        assert(user_stream@ =~= typed + user_stream::key_events(bytes@.take(i as int)));
    }
    assert(bytes@.take(bytes@.len() as int) =~= bytes@);
}

/// Holds predictions against the screen that the server shows.
pub(crate) fn validate_on(prediction: &mut PredictionEngine, snap: &ScreenSnapshot, now: Instant)
    requires
        old(prediction).wf(),
        old(prediction)@.prediction_epoch < u64::MAX,
    ensures
        final(prediction).wf(),
        final(prediction)@ == old(prediction)@.validated(
            shown_rows(snap@, old(prediction)@.rows),
            snap@.cursor_y as usize,
            snap@.cursor_x as usize,
            now,
        ),
{
    let get_cell = |r: usize, c: usize| -> (ch: char)
        ensures
            ch == shown_char(snap@, r, c),
        { char_at(snap, r, c) };
    prediction.validate_predictions_at(
        get_cell,
        snap.cursor_y as usize,
        snap.cursor_x as usize,
        now,
    );
    proof {
        let rows = old(prediction)@.rows;
        let actual = choose|actual: Seq<Seq<char>>| #[trigger]
            engine::answers(get_cell, rows, actual) && prediction@ == old(prediction)@.validated(
                actual,
                snap@.cursor_y as usize,
                snap@.cursor_x as usize,
                now,
            );
        assert forall|r: int| 0 <= r < rows.len() implies actual[r] == shown_rows(snap@, rows)[r] by {
            assert(engine::row_answers(get_cell, rows[r].1, actual[r]));
            assert(actual[r] =~= shown_row(snap@, rows[r].1));
        }
        assert(actual =~= shown_rows(snap@, rows));
    }
}

/// What a client holds.
#[verifier::ext_equal]
pub struct ClientView {
    pub transport: TransportView,
    /// What the user did.
    pub typed: Seq<UserEvent>,
    /// What the server was told of that.
    pub sent: Seq<UserEvent>,
    pub prediction: EngineView,
    pub notifications: NotificationView,
    pub handshake: Handshake,
}

impl ClientView {
    /// The diff that is not sent yet, if there is one.
    pub open spec fn pending(self) -> Option<Seq<u8>> {
        user_stream::unsent(self.sent, self.typed)
    }

    /// The diff that opens the session: everything that the user did.
    pub open spec fn opening(self) -> Option<Seq<u8>> {
        let diff = client::message_bytes(user_stream::difference(Seq::empty(), self.typed));
        if diff.len() > 0 {
            Some(diff)
        } else {
            None
        }
    }

    /// After the diff was sent.
    pub open spec fn after_sent(self, now: Instant) -> ClientView {
        ClientView { transport: self.transport.after_sent(now), sent: self.typed, ..self }
    }

    /// After keys were pressed, with the given screen shown.
    pub open spec fn after_keys(
        self,
        bytes: Seq<u8>,
        screen: ScreenView,
        cols: u16,
        rows: u16,
        now: Instant,
    ) -> ClientView {
        ClientView {
            typed: self.typed + user_stream::key_events(bytes),
            prediction: EngineView {
                local_frame_sent: self.transport.sender.state_num,
                ..after_bytes(
                    self.prediction,
                    bytes,
                    bytes.len() as int,
                    (screen.cursor_y as usize, screen.cursor_x as usize),
                    cols,
                    rows,
                    now,
                )
            },
            ..self
        }
    }

    /// After the terminal got other dimensions.
    pub open spec fn after_resize(self, width: i32, height: i32) -> ClientView {
        ClientView {
            typed: self.typed.push(UserEvent::Resize { width, height }),
            prediction: self.prediction.cleared(),
            ..self
        }
    }

    /// After a diff arrived: the server was heard, and what it acknowledged is known.
    pub open spec fn after_diff(self, diff: DiffView, now: Instant) -> ClientView {
        let acked = self.transport.sender.acked_state_num;
        ClientView {
            handshake: Handshake::answered(now),
            notifications: NotificationView {
                last_word_from_server: now,
                ..self.notifications.recovered(now)
            },
            prediction: EngineView {
                local_frame_acked: acked,
                local_frame_late_acked: match host_message::extracted(diff.diff).1 {
                    Some(ack) => ack,
                    None => acked,
                },
                ..self.prediction
            },
            ..self
        }
    }

    /// After the send interval was adapted to the round-trip time.
    pub open spec fn adapted(self) -> ClientView {
        let rtt_ms = self.transport.connection.rtt.srtt_ms;
        ClientView {
            transport: TransportView {
                sender: SenderView {
                    send_interval_ms: SenderView::interval_for(rtt_ms) as u64,
                    ..self.transport.sender
                },
                ..self.transport
            },
            prediction: EngineView { send_interval_ms: rtt_ms, ..self.prediction },
            ..self
        }
    }

    /// Whether the server was silent for too long.
    pub open spec fn is_lost(self, now: Instant) -> bool {
        time::nanos_between(self.transport.connection.last_heard, now) > CONNECTION_LOST_MS
            * 1_000_000
    }
}

/// The state of a client.
pub struct Client {
    pub transport: Transport,
    pub user_stream: UserStream,
    pub sent_stream: UserStream,
    pub prediction: PredictionEngine,
    pub notifications: NotificationEngine,
    pub handshake: Handshake,
}

impl View for Client {
    type V = ClientView;

    open spec fn view(&self) -> ClientView {
        ClientView {
            transport: self.transport@,
            typed: self.user_stream@,
            sent: self.sent_stream@,
            prediction: self.prediction@,
            notifications: self.notifications@,
            handshake: self.handshake,
        }
    }
}

impl Client {
    /// The parts are well-formed.
    pub open spec fn wf(&self) -> bool {
        &&& self.transport.wf()
        &&& self.prediction.wf()
    }

    /// A client that has just started, on a terminal with the given dimensions.
    pub fn new(transport: Transport, cols: u16, rows: u16, now: Instant) -> (res: Self)
        requires
            transport.wf(),
        ensures
            res.wf(),
            res@ == (ClientView {
                transport: TransportView {
                    sender: SenderView { state: SendState::Active, ..transport@.sender },
                    ..transport@
                },
                typed: seq![UserEvent::Resize { width: cols as i32, height: rows as i32 }],
                sent: Seq::empty(),
                prediction: EngineView {
                    send_interval_ms: transport@.sender.send_interval_ms,
                    ..EngineView::fresh(now)
                },
                notifications: NotificationView {
                    escape_key_string: "Ctrl-^ ."@,
                    ..NotificationView::fresh(now)
                },
                handshake: Handshake::started(now),
            }),
    {
        let mut transport = transport;
        transport.sender.set_state(SendState::Active);
        let mut prediction = PredictionEngine::new_at(now);
        prediction.set_display_preference(DisplayPreference::Adaptive);
        prediction.set_send_interval(transport.sender.send_interval_ms());
        let mut notifications = NotificationEngine::new_at(now);
        notifications.set_escape_key_string("Ctrl-^ .".to_owned());
        let mut user_stream = UserStream::new();
        user_stream.push_resize(cols as i32, rows as i32);
        let res = Client {
            transport,
            user_stream,
            sent_stream: UserStream::new(),
            prediction,
            notifications,
            handshake: Handshake::new(now),
        };
        assert(res@.typed =~= seq![
            UserEvent::Resize { width: cols as i32, height: rows as i32 },
        ]);
        res
    }

    /// Handles the bytes of keys: they are to be sent, and what they will do is predicted.
    pub fn on_key(
        &mut self,
        bytes: &Vec<u8>,
        snap: &ScreenSnapshot,
        cols: u16,
        rows: u16,
        now: Instant,
    )
        requires
            old(self).wf(),
        ensures
            final(self).wf(),
            final(self)@ == old(self)@.after_keys(bytes@, snap@, cols, rows, now),
    {
        type_bytes(
            &mut self.user_stream,
            &mut self.prediction,
            bytes,
            (snap.cursor_y as usize, snap.cursor_x as usize),
            cols,
            rows,
            now,
        );
        self.prediction.set_local_frame_sent(self.transport.sender.state_num());
    }

    /// Handles new dimensions of the terminal.
    pub fn on_resize(&mut self, width: i32, height: i32)
        requires
            old(self).wf(),
            old(self)@.prediction.prediction_epoch < u64::MAX,
        ensures
            final(self).wf(),
            final(self)@ == old(self)@.after_resize(width, height),
    {
        self.user_stream.push_resize(width, height);
        self.prediction.reset();
    }

    /// The diff that is not sent yet, if there is one.
    pub fn pending_diff(&self) -> (res: Option<Vec<u8>>)
        ensures
            match res {
                Some(diff) => self@.pending() == Some(diff@),
                None => self@.pending() is None,
            },
    {
        self.user_stream.unsent_since(&self.sent_stream)
    }

    /// The diff to be sent at once, if it is time to send.
    pub fn immediate_diff(&self, now: Instant) -> (res: Option<Vec<u8>>)
        requires
            self.wf(),
        ensures
            match res {
                Some(diff) => self@.transport.sender.due(now) && self@.pending() == Some(diff@),
                None => !self@.transport.sender.due(now) || self@.pending() is None,
            },
    {
        if self.transport.sender.should_send(now) {
            self.pending_diff()
        } else {
            None
        }
    }

    /// The fragments for a diff, which acknowledges what was received. Once they are sent, call
    /// [`Client::diff_sent`].
    pub fn send_diff(&mut self, diff: Vec<u8>) -> (res: Result<(Address, Vec<Fragment>), String>)
        requires
            old(self).wf(),
            old(self)@.transport.sender.state_num < u64::MAX,
        ensures
            final(self).wf(),
            final(self)@ == (ClientView {
                transport: TransportView {
                    connection: final(self)@.transport.connection,
                    ..old(self)@.transport
                },
                ..old(self)@
            }),
            connection::dispatched(
                old(self)@.transport.connection,
                old(self)@.transport.diff_instruction(
                    diff@,
                    old(self)@.transport.receiver.remote_state_num,
                    old(self)@.transport.sender.throwaway_num,
                ),
                res,
                final(self)@.transport.connection,
            ),
    {
        let ack_num: u64 = self.transport.receiver.remote_state_num();
        let throwaway: u64 = self.transport.sender.throwaway_num();
        self.transport.send_diff(diff, ack_num, throwaway)
    }

    /// Marks that the diff was sent.
    pub fn diff_sent(&mut self, now: Instant)
        requires
            old(self).wf(),
            old(self)@.transport.sender.state_num < u64::MAX,
        ensures
            final(self).wf(),
            final(self)@ == old(self)@.after_sent(now),
    {
        self.sent_stream = self.user_stream.clone();
        self.transport.mark_sent(now);
    }

    /// Looks at the clock. Gives the diff that opens the session if it is to be sent again.
    pub fn handshake_diff(&mut self, now: Instant) -> (res: Option<Vec<u8>>)
        requires
            old(self).wf(),
        ensures
            final(self).wf(),
            final(self)@ == (ClientView {
                handshake: old(self)@.handshake.after_tick(now),
                ..old(self)@
            }),
            match res {
                Some(diff) => old(self)@.handshake.due(now) && old(self)@.opening() == Some(diff@),
                None => !old(self)@.handshake.due(now) || old(self)@.opening() is None,
            },
    {
        if self.handshake.tick(now) {
            let nothing = UserStream::new();
            let diff = self.user_stream.diff_from(&nothing);
            if diff.len() > 0 {
                return Some(diff);
            }
        }
        None
    }

    /// Whether the server was silent for too long.
    pub fn connection_lost(&self, now: Instant) -> (res: bool)
        ensures
            res == self@.is_lost(now),
    {
        self.transport.connection().time_since_last_heard(now) > CONNECTION_LOST_MS * 1_000_000
    }

    /// Handles a diff that arrived. Gives the terminal output in it.
    pub fn on_diff(&mut self, diff: &ReceivedDiff, now: Instant) -> (res: Vec<u8>)
        requires
            old(self).wf(),
        ensures
            final(self).wf(),
            final(self)@ == old(self)@.after_diff(diff@, now),
            res@ == host_message::extracted(diff@.diff).0,
    {
        self.handshake.heard(now);
        self.notifications.clear_network_error_at(now);
        self.notifications.server_heard(now);
        let (vt_bytes, echo_ack) = extract_host_message(diff.diff.as_slice());
        let acked: u64 = self.transport.sender.acked_state_num();
        self.prediction.set_local_frame_acked(acked);
        self.prediction.set_local_frame_late_acked(
            match echo_ack {
                Some(ack) => ack,
                None => acked,
            },
        );
        vt_bytes
    }

    /// Holds the predictions against the screen that the server shows.
    pub fn validate(&mut self, snap: &ScreenSnapshot, now: Instant)
        requires
            old(self).wf(),
            old(self)@.prediction.prediction_epoch < u64::MAX,
        ensures
            final(self).wf(),
            final(self)@ == (ClientView {
                prediction: old(self)@.prediction.validated(
                    shown_rows(snap@, old(self)@.prediction.rows),
                    snap@.cursor_y as usize,
                    snap@.cursor_x as usize,
                    now,
                ),
                ..old(self)@
            }),
    {
        validate_on(&mut self.prediction, snap, now);
    }

    /// Handles an error of the network.
    pub fn on_error(&mut self, error: String, now: Instant)
        requires
            old(self).wf(),
        ensures
            final(self).wf(),
            final(self)@ == (ClientView {
                notifications: old(self)@.notifications.failed(error@, now),
                ..old(self)@
            }),
    {
        self.notifications.set_network_error_at(error, now);
    }

    /// Adapts the send interval to the round-trip time.
    pub fn adapt(&mut self)
        requires
            old(self).wf(),
        ensures
            final(self).wf(),
            final(self)@ == old(self)@.adapted(),
    {
        let rtt_ms: u64 = self.transport.connection().rtt().srtt_ms();
        self.transport.update_send_interval(rtt_ms);
        self.prediction.set_send_interval(rtt_ms);
    }
}

/// Once the pending diff is sent, nothing is pending until the user does something.
pub proof fn sent_leaves_nothing_pending(c: ClientView, now: Instant)
    ensures
        c.after_sent(now).pending() is None,
{
}

/// What is sent takes the server to what the user did: applied to what the server was told before,
/// the pending diff gives everything typed.
pub proof fn pending_diff_catches_up(c: ClientView)
    requires
        c.sent.len() <= c.typed.len(),
        c.typed.take(c.sent.len() as int) == c.sent,
    ensures
        c.pending() matches Some(diff) ==> (diff.len() <= u64::MAX ==> c.sent
            + user_stream::events_of(client::message_of(diff)->Some_0) == c.typed),
{
    if let Some(diff) = c.pending() {
        if diff.len() <= u64::MAX {
            user_stream::diff_applies(c.sent, c.typed);
        }
    }
}

/// What the server was told is always the start of what the user did.
pub proof fn sent_is_a_start(
    c: ClientView,
    bytes: Seq<u8>,
    screen: ScreenView,
    cols: u16,
    rows: u16,
    width: i32,
    height: i32,
    now: Instant,
)
    requires
        c.sent.len() <= c.typed.len(),
        c.typed.take(c.sent.len() as int) == c.sent,
    ensures
        ({
            let n = c.sent.len() as int;
            let k = c.after_keys(bytes, screen, cols, rows, now);
            let r = c.after_resize(width, height);
            let s = c.after_sent(now);
            &&& k.sent == c.sent && k.typed.take(n) == c.sent
            &&& r.sent == c.sent && r.typed.take(n) == c.sent
            &&& s.typed.take(s.sent.len() as int) == s.sent
        }),
{
    let n = c.sent.len() as int;
    let k = c.after_keys(bytes, screen, cols, rows, now);
    let r = c.after_resize(width, height);
    assert(k.typed.take(n) =~= c.typed.take(n));
    assert(r.typed.take(n) =~= c.typed.take(n));
    assert(c.typed.take(c.typed.len() as int) =~= c.typed);
}

/// Once the server has answered, the first message is not sent again for a year.
pub proof fn answer_ends_handshake(heard: Instant, now: Instant)
    requires
        heard.nanos + NO_HANDSHAKE_MS * 1_000_000 <= u64::MAX,
        now.nanos < heard.nanos + NO_HANDSHAKE_MS * 1_000_000,
    ensures
        !Handshake::answered(heard).due(now),
{
}

/// A handshake that was repeated is not repeated again before the timeout.
pub proof fn handshake_waits(h: Handshake, sent: Instant, now: Instant)
    requires
        h.due(sent),
        sent.nanos + HANDSHAKE_TIMEOUT_MS * 1_000_000 <= u64::MAX,
        now.nanos < sent.nanos + HANDSHAKE_TIMEOUT_MS * 1_000_000,
    ensures
        !h.after_tick(sent).due(now),
{
}

/// The first message is sent again two seconds after it was sent, and every two seconds from then
/// on, ten times at most; a look at the clock before that starts the count anew.
pub proof fn handshake_repeats(h: Handshake, now: Instant)
    requires
        now.nanos + 2_000_000_000 <= u64::MAX,
    ensures
        Handshake::started(now).retries == 0,
        Handshake::started(now).deadline.nanos == now.nanos + 2_000_000_000,
        h.due(now) <==> h.retries < 10 && h.deadline.nanos <= now.nanos,
        h.due(now) ==> h.after_tick(now).retries == h.retries + 1 && h.after_tick(
            now,
        ).deadline.nanos == now.nanos + 2_000_000_000,
        !h.due(now) ==> h.after_tick(now).retries == 0 && h.after_tick(now).deadline == h.deadline,
        Handshake::answered(now).retries == 0,
        now.nanos + 31_536_000_000_000_000 <= u64::MAX ==> Handshake::answered(now).deadline.nanos
            == now.nanos + 31_536_000_000_000_000,
{
}

/// A prediction is held against the first character of the very cell that it is for, or a blank
/// where that has no text or is not on the screen.
pub proof fn predictions_meet_their_cells(
    screen: ScreenView,
    rows: Seq<(usize, OverlayRowView)>,
    r: int,
    i: int,
)
    requires
        0 <= r < rows.len(),
        0 <= i < rows[r].1.cells.len(),
        rows[r].1.row_num <= u16::MAX,
        rows[r].1.cells[i].col <= u16::MAX,
    ensures
        ({
            let shown = shown_rows(screen, rows);
            let y = rows[r].1.row_num as int;
            let x = rows[r].1.cells[i].col as int;
            &&& shown.len() == rows.len()
            &&& shown[r].len() == rows[r].1.cells.len()
            &&& y < screen.rows.len() && x < screen.rows[y].len() && screen.rows[y][x].text.len()
                > 0 ==> shown[r][i] == screen.rows[y][x].text[0]
            &&& !(y < screen.rows.len() && x < screen.rows[y].len()
                && screen.rows[y][x].text.len() > 0) ==> shown[r][i] == ' '
        }),
{
}

/// Typing goes on where the cursor is predicted to be, if it is, and else where it is shown. Bytes
/// typed one after the other are predicted one after the other.
pub proof fn typing_goes_on(
    e: EngineView,
    bytes: Seq<u8>,
    more: Seq<u8>,
    shown: (usize, usize),
    cols: u16,
    rows: u16,
    now: Instant,
)
    ensures
        e.cursors.len() == 0 ==> cursor_of(e, shown) == shown,
        e.cursors.len() > 0 && !e.cursors.last().active ==> cursor_of(e, shown) == shown,
        e.cursors.len() > 0 && e.cursors.last().active ==> cursor_of(e, shown) == (
            e.cursors.last().row,
            e.cursors.last().col,
        ),
        after_bytes(e, bytes + more, (bytes + more).len() as int, shown, cols, rows, now)
            == after_bytes(
            after_bytes(e, bytes, bytes.len() as int, shown, cols, rows, now),
            more,
            more.len() as int,
            shown,
            cols,
            rows,
            now,
        ),
{
    bytes_split(e, bytes, more, more.len() as int, shown, cols, rows, now);
}

proof fn bytes_agree(
    e: EngineView,
    a: Seq<u8>,
    b: Seq<u8>,
    n: int,
    shown: (usize, usize),
    cols: u16,
    rows: u16,
    now: Instant,
)
    requires
        n <= a.len(),
        n <= b.len(),
        forall|i: int| 0 <= i < n ==> #[trigger] a[i] == b[i],
    ensures
        after_bytes(e, a, n, shown, cols, rows, now) == after_bytes(
            e,
            b,
            n,
            shown,
            cols,
            rows,
            now,
        ),
    decreases n,
{
    if n > 0 {
        bytes_agree(e, a, b, n - 1, shown, cols, rows, now);
        assert(a[n - 1] == b[n - 1]);
    }
}

proof fn bytes_split(
    e: EngineView,
    bytes: Seq<u8>,
    more: Seq<u8>,
    n: int,
    shown: (usize, usize),
    cols: u16,
    rows: u16,
    now: Instant,
)
    requires
        0 <= n <= more.len(),
    ensures
        after_bytes(e, bytes + more, bytes.len() + n, shown, cols, rows, now) == after_bytes(
            after_bytes(e, bytes, bytes.len() as int, shown, cols, rows, now),
            more,
            n,
            shown,
            cols,
            rows,
            now,
        ),
    decreases n,
{
    if n == 0 {
        bytes_agree(e, bytes + more, bytes, bytes.len() as int, shown, cols, rows, now);
    } else {
        bytes_split(e, bytes, more, n - 1, shown, cols, rows, now);
        assert((bytes + more)[bytes.len() + n - 1] == more[n - 1]);
    }
}

/// A byte that can be predicted is typed at that cursor.
pub proof fn byte_is_typed(
    e: EngineView,
    byte: u8,
    shown: (usize, usize),
    cols: u16,
    rows: u16,
    now: Instant,
)
    ensures
        ({
            let (row, col) = cursor_of(e, shown);
            let after = after_bytes(e, seq![byte], 1, shown, cols, rows, now);
            &&& e.takes(byte as char, col, cols as usize) ==> after == e.typed(
                byte as char,
                row,
                col,
                cols as usize,
                rows as usize,
                now,
            )
            &&& !e.takes(byte as char, col, cols as usize) ==> after == e
        }),
{
    reveal_with_fuel(after_bytes, 2);
}

/// Keys reach the stream of what the user did as they are, and new dimensions follow as an event of
/// their own, which withdraws all predictions.
pub proof fn input_is_recorded(
    c: ClientView,
    bytes: Seq<u8>,
    screen: ScreenView,
    cols: u16,
    rows: u16,
    width: i32,
    height: i32,
    now: Instant,
)
    requires
        c.prediction.prediction_epoch < u64::MAX,
    ensures
        ({
            let k = c.after_keys(bytes, screen, cols, rows, now);
            let r = c.after_resize(width, height);
            &&& k.typed.len() == c.typed.len() + bytes.len()
            &&& k.typed.take(c.typed.len() as int) == c.typed
            &&& forall|i: int|
                0 <= i < bytes.len() ==> #[trigger] k.typed[c.typed.len() + i]
                    == UserEvent::UserByte(bytes[i])
            &&& k.prediction.local_frame_sent == c.transport.sender.state_num
            &&& k.transport == c.transport && k.handshake == c.handshake && k.notifications
                == c.notifications
            &&& r.typed == c.typed.push(UserEvent::Resize { width, height })
            &&& r.prediction.rows.len() == 0 && r.prediction.cursors.len() == 0
            &&& r.prediction.prediction_epoch == c.prediction.prediction_epoch + 1
            &&& r.sent == c.sent && r.transport == c.transport
        }),
{
    let k = c.after_keys(bytes, screen, cols, rows, now);
    assert(k.typed.take(c.typed.len() as int) =~= c.typed);
}

/// A diff from the server ends the handshake and any silence, and tells which input it has seen: what
/// it acknowledges by itself, or else the last state that was acknowledged.
pub proof fn diff_is_noted(c: ClientView, diff: DiffView, now: Instant)
    ensures
        ({
            let after = c.after_diff(diff, now);
            let acked = c.transport.sender.acked_state_num;
            &&& after.notifications.last_word_from_server == now
            &&& after.notifications.last_acked_state == c.notifications.last_acked_state
            &&& after.notifications.message == c.notifications.message
            &&& after.handshake.retries == 0
            &&& after.prediction.local_frame_acked == acked
            &&& host_message::extracted(diff.diff).1 is None
                ==> after.prediction.local_frame_late_acked == acked
            &&& host_message::extracted(diff.diff).1 is Some
                ==> after.prediction.local_frame_late_acked == host_message::extracted(
                diff.diff,
            ).1.unwrap()
            &&& after.prediction.rows == c.prediction.rows
            &&& after.prediction.cursors == c.prediction.cursors
            &&& after.typed == c.typed && after.sent == c.sent && after.transport == c.transport
        }),
{
}

/// The connection is lost once the server was silent for more than fifteen seconds.
pub proof fn silence_loses_connection(c: ClientView, now: Instant)
    ensures
        c.is_lost(now) <==> now.nanos > c.transport.connection.last_heard.nanos + 15_000_000_000,
{
}

/// The send interval follows the round-trip time: half of it, rounded up, between twenty and two
/// hundred and fifty milliseconds; the predictions follow the round-trip time itself.
pub proof fn interval_is_adapted(c: ClientView)
    ensures
        ({
            let rtt = c.transport.connection.rtt.srtt_ms;
            let after = c.adapted();
            let interval = after.transport.sender.send_interval_ms;
            &&& after.prediction.send_interval_ms == rtt
            &&& rtt <= 40 ==> interval == 20
            &&& 40 <= rtt <= 500 ==> rtt <= 2 * interval <= rtt + 1
            &&& rtt >= 499 ==> interval == 250
            &&& after.transport.connection == c.transport.connection
            &&& after.transport.receiver == c.transport.receiver
            &&& after.typed == c.typed && after.sent == c.sent
        }),
{
}

/// Keys are predicted from where the screen shows its cursor.
pub proof fn keys_are_predicted(
    c: ClientView,
    bytes: Seq<u8>,
    screen: ScreenView,
    cols: u16,
    rows: u16,
    now: Instant,
)
    ensures
        ({
            let k = c.after_keys(bytes, screen, cols, rows, now).prediction;
            let p = after_bytes(
                c.prediction,
                bytes,
                bytes.len() as int,
                (screen.cursor_y as usize, screen.cursor_x as usize),
                cols,
                rows,
                now,
            );
            &&& k.rows == p.rows && k.cursors == p.cursors
            &&& k.prediction_epoch == p.prediction_epoch && k.confirmed_epoch == p.confirmed_epoch
            &&& k.local_frame_acked == p.local_frame_acked
            &&& k.local_frame_late_acked == p.local_frame_late_acked
        }),
{
}

/// A session opens with everything that the user did: the server reads it back.
pub proof fn opening_tells_everything(c: ClientView)
    requires
        c.typed.len() > 0,
        client::message_bytes(user_stream::grouped(c.typed)).len() <= u64::MAX,
    ensures
        c.opening() is Some,
        client::message_of(c.opening().unwrap()) is Some,
        user_stream::events_of(client::message_of(c.opening().unwrap()).unwrap()) == c.typed,
{
    let none = Seq::<UserEvent>::empty();
    assert(none + c.typed =~= c.typed);
    user_stream::news_are_pending(none, c.typed);
    assert(c.typed.take(0) =~= none);
    user_stream::diff_applies(none, c.typed);
    let list = client::message_of(c.opening().unwrap()).unwrap();
    assert(none + user_stream::events_of(list) =~= user_stream::events_of(list));
}

} // verus!
