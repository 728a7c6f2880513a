//! The classic client: its keys, and what it does with keys and packets.

use crate::client::input::ActionView;
use crate::client::input::InputAction;
use crate::client::keys;
use crate::client::keys::key_bytes;
use crate::client::keys::KeyCode;
use crate::client::state;
use crate::client::state::type_bytes;
use crate::client::state::validate_on;
use crate::network::connection::Address;
use crate::network::fragment::Fragment;
use crate::network::untimed;
use crate::network::untimed::Transport;
use crate::network::untimed::UntimedTransportView;
use crate::prediction::engine::DisplayPreference;
use crate::prediction::engine::EngineView;
use crate::prediction::engine::PredictionEngine;
use crate::proto::client;
use crate::statesync::complete::Complete;
use crate::statesync::complete::CompleteView;
use crate::statesync::user_stream;
use crate::statesync::user_stream::UserEvent;
use crate::statesync::user_stream::UserStream;
use crate::statesync::vt;
use crate::terminal::snapshot;
use crate::time::Instant;
use vstd::prelude::*;

verus! {

/// Whether a key can be pressed with control held down: a character from `a` on, by its low eight
/// bits.
pub open spec fn controllable(code: KeyCode) -> bool {
    match code {
        KeyCode::Char(ch) => keys::low_byte(ch) >= 0x61,
        _ => true,
    }
}

/// What a key does. Control and `c` quits.
pub open spec fn action_of(code: KeyCode, control: bool, alt: bool) -> ActionView {
    match code {
        KeyCode::Char(ch) => if control && ch == 'c' {
            ActionView::Quit
        } else if control {
            ActionView::Send(seq![(keys::low_byte(ch) - 0x60) as u8])
        } else {
            ActionView::Send(keys::bytes_for(code, false, alt))
        },
        _ => {
            let bytes = keys::bytes_for(code, false, alt);
            if bytes.len() > 0 {
                ActionView::Send(bytes)
            } else {
                ActionView::Nothing
            }
        },
    }
}

/// What a key does.
pub fn press(code: KeyCode, control: bool, alt: bool) -> (res: InputAction)
    requires
        control ==> controllable(code),
    ensures
        res@ == action_of(code, control, alt),
{
    match code {
        KeyCode::Char(ch) => {
            if control && ch == 'c' {
                InputAction::Quit
            } else if control {
                let low: u8 = (ch as u32 % 256) as u8;
                let res = InputAction::Send(vec![low - 0x60]);
                assert(res@ =~= action_of(code, control, alt));
                res
            } else {
                InputAction::Send(key_bytes(code, false, alt))
            }
        },
        _ => {
            let bytes = key_bytes(code, false, alt);
            if bytes.len() > 0 {
                InputAction::Send(bytes)
            } else {
                InputAction::Nothing
            }
        },
    }
}

/// What a client holds.
#[verifier::ext_equal]
pub struct ClientView {
    pub transport: UntimedTransportView,
    /// What the user did.
    pub typed: Seq<UserEvent>,
    /// What the server was told of that.
    pub sent: Seq<UserEvent>,
    pub terminal: CompleteView,
    pub prediction: EngineView,
}

impl ClientView {
    /// A client that has just started, on a terminal with the given dimensions.
    pub open spec fn fresh(
        transport: UntimedTransportView,
        cols: u16,
        rows: u16,
        now: Instant,
    ) -> ClientView {
        ClientView {
            transport,
            typed: seq![UserEvent::Resize { width: cols as i32, height: rows as i32 }],
            sent: Seq::empty(),
            terminal: CompleteView { screen: snapshot::blank_screen(80, 24), echo_ack: 0 },
            prediction: EngineView::fresh(now),
        }
    }

    /// The diff that is not sent yet, if there is one.
    pub open spec fn pending(self) -> Option<Seq<u8>> {
        user_stream::unsent(self.sent, self.typed)
    }

    /// After the diff was sent.
    pub open spec fn after_sent(self, now: Instant) -> ClientView {
        ClientView { transport: self.transport.after_sent(now), sent: self.typed, ..self }
    }

    /// After keys were pressed. Without a predicted cursor they are predicted in the corner.
    pub open spec fn after_keys(
        self,
        bytes: Seq<u8>,
        cols: u16,
        rows: u16,
        now: Instant,
    ) -> ClientView {
        ClientView {
            typed: self.typed + user_stream::key_events(bytes),
            prediction: state::after_bytes(
                self.prediction,
                bytes,
                bytes.len() as int,
                (0, 0),
                cols,
                rows,
                now,
            ),
            ..self
        }
    }

    /// After the terminal got other dimensions.
    pub open spec fn after_resize(self, cols: u16, rows: u16) -> ClientView {
        ClientView {
            typed: self.typed.push(UserEvent::Resize { width: cols as i32, height: rows as i32 }),
            terminal: CompleteView { screen: snapshot::blank_screen(cols, rows), echo_ack: 0 },
            ..self
        }
    }

    /// After terminal output arrived: it is shown, and the predictions are held against it.
    pub open spec fn after_output(self, diff: Seq<u8>, now: Instant) -> ClientView {
        let screen = vt::written_to(self.terminal.screen, diff);
        ClientView {
            terminal: CompleteView { screen, ..self.terminal },
            prediction: self.prediction.validated(
                state::shown_rows(screen, self.prediction.rows),
                screen.cursor_y as usize,
                screen.cursor_x as usize,
                now,
            ),
            ..self
        }
    }
}

/// The state of a client.
pub struct Client {
    pub transport: Transport,
    pub user_stream: UserStream,
    pub sent_stream: UserStream,
    pub terminal_state: Complete,
    pub prediction: PredictionEngine,
}

impl View for Client {
    type V = ClientView;

    open spec fn view(&self) -> ClientView {
        ClientView {
            transport: self.transport@,
            typed: self.user_stream@,
            sent: self.sent_stream@,
            terminal: self.terminal_state@,
            prediction: self.prediction@,
        }
    }
}

impl Client {
    /// The parts are well-formed.
    pub open spec fn wf(&self) -> bool {
        &&& self.transport.wf()
        &&& self.prediction.wf()
    }

    /// A client that has just started, on a terminal with the given dimensions.
    pub fn new(transport: Transport, cols: u16, rows: u16, now: Instant) -> (res: Result<
        Self,
        String,
    >)
        requires
            transport.wf(),
        ensures
            res matches Ok(c) && c.wf() && c@ == ClientView::fresh(transport@, cols, rows, now),
    {
        match Complete::new(80, 24) {
            Ok(terminal_state) => {
                let mut prediction = PredictionEngine::new_at(now);
                prediction.set_display_preference(DisplayPreference::Adaptive);
                let mut user_stream = UserStream::new();
                user_stream.push_resize(cols as i32, rows as i32);
                let res = Client {
                    transport,
                    user_stream,
                    sent_stream: UserStream::new(),
                    terminal_state,
                    prediction,
                };
                assert(res@ =~= ClientView::fresh(transport@, cols, rows, now));
                Ok(res)
            },
            Err(e) => Err(e),
        }
    }

    /// Handles the bytes of keys: they are to be sent, and what they will do is predicted.
    pub fn on_key(&mut self, bytes: &Vec<u8>, cols: u16, rows: u16, now: Instant)
        requires
            old(self).wf(),
        ensures
            final(self).wf(),
            final(self)@ == old(self)@.after_keys(bytes@, cols, rows, now),
    {
        type_bytes(
            &mut self.user_stream,
            &mut self.prediction,
            bytes,
            (0, 0),
            cols,
            rows,
            now,
        );
    }

    /// Handles new dimensions of the terminal.
    pub fn on_resize(&mut self, cols: u16, rows: u16) -> (res: Result<(), String>)
        requires
            old(self).wf(),
        ensures
            res is Ok,
            final(self).wf(),
            final(self)@ == old(self)@.after_resize(cols, rows),
    {
        self.user_stream.push_resize(cols as i32, rows as i32);
        match Complete::new(cols, rows) {
            Ok(terminal_state) => {
                self.terminal_state = terminal_state;
                Ok(())
            },
            Err(e) => Err(e),
        }
    }

    /// The diff that is not sent yet, if there is one.
    pub fn pending_diff(&self) -> (res: Option<Vec<u8>>)
        ensures
            match res {
                Some(diff) => self@.pending() == Some(diff@),
                None => self@.pending() is None,
            },
    {
        self.user_stream.unsent_since(&self.sent_stream)
    }

    /// The fragments for a diff, which acknowledges what was received. Once they are sent, call
    /// [`Client::diff_sent`].
    pub fn send_diff(&mut self, diff: Vec<u8>) -> (res: Result<(Address, Vec<Fragment>), String>)
        requires
            old(self).wf(),
            old(self)@.transport.sender.state_num < u64::MAX,
        ensures
            final(self).wf(),
            final(self)@ == (ClientView {
                transport: UntimedTransportView {
                    connection: final(self)@.transport.connection,
                    ..old(self)@.transport
                },
                ..old(self)@
            }),
            untimed::dispatched(
                old(self)@.transport.connection,
                old(self)@.transport.sender.next_instruction(
                    diff@,
                    old(self)@.transport.receiver.remote_state_num,
                    old(self)@.transport.sender.throwaway_num,
                ),
                res,
                final(self)@.transport.connection,
            ),
    {
        let ack_num: u64 = self.transport.receiver.remote_state_num();
        let throwaway: u64 = self.transport.sender.throwaway_num();
        self.transport.send_diff(diff, ack_num, throwaway)
    }

    /// Marks that the diff was sent.
    pub fn diff_sent(&mut self, now: Instant)
        requires
            old(self).wf(),
            old(self)@.transport.sender.state_num < u64::MAX,
        ensures
            final(self).wf(),
            final(self)@ == old(self)@.after_sent(now),
    {
        self.sent_stream = self.user_stream.clone();
        self.transport.mark_sent(now);
    }

    /// Handles terminal output that arrived.
    pub fn on_output(&mut self, diff: &[u8], now: Instant)
        requires
            old(self).wf(),
            old(self)@.prediction.prediction_epoch < u64::MAX,
        ensures
            final(self).wf(),
            final(self)@ == old(self)@.after_output(diff@, now),
    {
        self.terminal_state.apply_string(diff);
        validate_on(&mut self.prediction, self.terminal_state.snapshot(), now);
    }
}

/// Once the pending diff is sent, nothing is pending until the user does something.
pub proof fn sent_leaves_nothing_pending(c: ClientView, now: Instant)
    ensures
        c.after_sent(now).pending() is None,
{
}

/// What is sent takes the server to what the user did: applied to what the server was told before,
/// the pending diff gives everything typed.
pub proof fn pending_diff_catches_up(c: ClientView)
    requires
        c.sent.len() <= c.typed.len(),
        c.typed.take(c.sent.len() as int) == c.sent,
    ensures
        c.pending() matches Some(diff) ==> (diff.len() <= u64::MAX ==> c.sent
            + user_stream::events_of(client::message_of(diff)->Some_0) == c.typed),
{
    if let Some(diff) = c.pending() {
        if diff.len() <= u64::MAX {
            user_stream::diff_applies(c.sent, c.typed);
        }
    }
}

/// Control and `c` quits; control and any other character sends it without its higher bits; without
/// control a key sends what it always does, and one that sends nothing does nothing.
pub proof fn keys_act(ch: char, code: KeyCode, control: bool, alt: bool)
    ensures
        action_of(KeyCode::Char('c'), true, alt) == ActionView::Quit,
        ch != 'c' ==> action_of(KeyCode::Char(ch), true, alt) == ActionView::Send(
            seq![(ch as int % 256 - 96) as u8],
        ),
        !alt ==> action_of(KeyCode::Char(ch), false, alt) == ActionView::Send(
            seq![(ch as int % 256) as u8],
        ),
        alt ==> action_of(KeyCode::Char(ch), false, alt) == ActionView::Send(
            seq![0x1bu8, (ch as int % 256) as u8],
        ),
        !(code is Char) && keys::bytes_for(code, control, alt).len() == 0 ==> action_of(
            code,
            control,
            alt,
        ) == ActionView::Nothing,
        !(code is Char) && keys::bytes_for(code, control, alt).len() > 0 ==> action_of(
            code,
            control,
            alt,
        ) == ActionView::Send(keys::bytes_for(code, control, alt)),
        controllable(KeyCode::Char(ch)) <==> ch as int % 256 >= 97,
{
}

/// Keys reach the stream of what the user did as they are, and new dimensions follow as an event of
/// their own, which blanks the terminal; output is written to it.
pub proof fn input_is_recorded(
    c: ClientView,
    bytes: Seq<u8>,
    diff: Seq<u8>,
    cols: u16,
    rows: u16,
    now: Instant,
)
    ensures
        ({
            let k = c.after_keys(bytes, cols, rows, now);
            let r = c.after_resize(cols, rows);
            let o = c.after_output(diff, now);
            &&& k.typed.len() == c.typed.len() + bytes.len()
            &&& k.typed.take(c.typed.len() as int) == c.typed
            &&& forall|i: int|
                0 <= i < bytes.len() ==> #[trigger] k.typed[c.typed.len() + i]
                    == UserEvent::UserByte(bytes[i])
            &&& k.terminal == c.terminal && k.sent == c.sent && k.transport == c.transport
            &&& r.typed == c.typed.push(
                UserEvent::Resize { width: cols as i32, height: rows as i32 },
            )
            &&& r.terminal.screen == snapshot::blank_screen(cols, rows)
            &&& r.sent == c.sent && r.prediction == c.prediction
            &&& o.terminal.screen == vt::written_to(c.terminal.screen, diff)
            &&& o.typed == c.typed && o.sent == c.sent && o.transport == c.transport
            &&& o.prediction == c.prediction.validated(
                state::shown_rows(o.terminal.screen, c.prediction.rows),
                o.terminal.screen.cursor_y as usize,
                o.terminal.screen.cursor_x as usize,
                now,
            )
        }),
{
    let k = c.after_keys(bytes, cols, rows, now);
    assert(k.typed.take(c.typed.len() as int) =~= c.typed);
}

/// A client starts with a blank screen of twenty-four rows of eighty columns, has told the server
/// nothing, and has its own dimensions to tell. Keys are predicted from the corner.
pub proof fn clients_start_blank(
    transport: UntimedTransportView,
    bytes: Seq<u8>,
    cols: u16,
    rows: u16,
    now: Instant,
)
    ensures
        ({
            let c = ClientView::fresh(transport, cols, rows, now);
            &&& c.sent.len() == 0
            &&& c.typed == seq![UserEvent::Resize { width: cols as i32, height: rows as i32 }]
            &&& c.terminal.screen == snapshot::blank_screen(80, 24)
            &&& c.prediction.rows.len() == 0
            &&& c.after_keys(bytes, cols, rows, now).prediction == state::after_bytes(
                c.prediction,
                bytes,
                bytes.len() as int,
                (0, 0),
                cols,
                rows,
                now,
            )
        }),
{
}

} // verus!
