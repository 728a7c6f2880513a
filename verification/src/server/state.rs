//! The state of a server: what its terminal shows, and what the client knows of it.

use crate::network::connection;
use crate::network::connection::Address;
use crate::network::fragment::Fragment;
use crate::network::transport::DiffView;
use crate::network::transport::ReceivedDiff;
use crate::network::transport::SendState;
use crate::network::transport::SenderView;
use crate::network::transport::Transport;
use crate::network::transport::TransportView;
use crate::proto::client;
use crate::proto::client::UserMessage;
use crate::server::pty;
use crate::server::pty::client_actions;
use crate::server::pty::ClientAction;
use crate::server::pty::PtySize;
use crate::statesync::emulated::Complete;
use crate::statesync::emulated::EmulatedView;
use crate::terminal::display;
use crate::terminal::snapshot::ScreenSnapshot;
use crate::terminal::snapshot::ScreenView;
use crate::terminal::terminal::Reading;
use crate::terminal::terminal::TerminalView;
use crate::time;
use crate::time::Instant;
use vstd::prelude::*;

verus! {

/// Without having sent anything for longer than this, the server sends an acknowledgment.
pub const KEEPALIVE_MS: u64 = 2000;

/// What a server holds.
#[verifier::ext_equal]
pub struct ServerView {
    pub transport: TransportView,
    pub terminal: EmulatedView,
    /// The screen that the client is assumed to show.
    pub assumed: ScreenView,
}

impl ServerView {
    /// The bytes that bring the client up to date, if there are any.
    pub open spec fn update(self, reading: Option<Reading>) -> Option<Seq<u8>> {
        let diff = vstd::utf8::encode_utf8(
            display::screen_update(self.assumed, self.terminal.screen(reading)),
        );
        if diff.len() > 0 {
            Some(diff)
        } else {
            None
        }
    }

    /// After the client was brought up to date.
    pub open spec fn after_update(self, reading: Option<Reading>, now: Instant) -> ServerView {
        ServerView {
            transport: self.transport.after_sent(now),
            assumed: self.terminal.screen(reading),
            ..self
        }
    }

    /// After the terminal got other dimensions.
    pub open spec fn after_resize(self, size: PtySize) -> ServerView {
        ServerView {
            terminal: EmulatedView {
                terminal: TerminalView { cols: size.cols, rows: size.rows, frame: 0 },
                echo_ack: 0,
            },
            ..self
        }
    }

    /// Whether the client must be told that the server is alive.
    pub open spec fn keepalive_due(self, now: Instant) -> bool {
        time::millis_between(self.transport.sender.last_send_time, now) > KEEPALIVE_MS
    }
}

/// What a diff from the client asks for; nothing if it cannot be read.
pub open spec fn asked(diff: DiffView) -> Option<Seq<pty::ActionView>> {
    if diff.diff.len() == 0 {
        Some(seq![])
    } else {
        match client::message_of(diff.diff) {
            Some(list) => Some(pty::actions_of(list)),
            None => None,
        }
    }
}

/// The state of a server.
pub struct Server {
    pub transport: Transport,
    pub terminal_state: Complete,
    pub client_assumed_state: ScreenSnapshot,
}

impl View for Server {
    type V = ServerView;

    open spec fn view(&self) -> ServerView {
        ServerView {
            transport: self.transport@,
            terminal: self.terminal_state@,
            assumed: self.client_assumed_state@,
        }
    }
}

impl Server {
    /// The transport is well-formed, and the assumed screen has all its cells.
    pub open spec fn wf(&self) -> bool {
        &&& self.transport.wf()
        &&& self@.assumed.covers()
    }

    /// A server whose client has connected. `blank` is the reading of an emulator that has shown
    /// nothing, of the usual dimensions: that is what the client is assumed to show.
    pub fn new(transport: Transport, size: PtySize, blank: &Option<Reading>) -> (res: Self)
        requires
            transport.wf(),
        ensures
            res.wf(),
            res@ == (ServerView {
                transport: TransportView {
                    sender: SenderView { state: SendState::Active, ..transport@.sender },
                    ..transport@
                },
                terminal: EmulatedView {
                    terminal: TerminalView { cols: size.cols, rows: size.rows, frame: 0 },
                    echo_ack: 0,
                },
                assumed: (EmulatedView {
                    terminal: TerminalView { cols: 80, rows: 24, frame: 0 },
                    echo_ack: 0,
                }).screen(*blank),
            }),
    {
        let mut transport = transport;
        transport.sender.set_state(SendState::Active);
        let usual = Complete::new(80, 24);
        Server {
            transport,
            terminal_state: Complete::new(size.cols, size.rows),
            client_assumed_state: usual.snapshot(blank),
        }
    }

    /// The bytes that bring the client up to date with what the emulator was read to show, if there
    /// are any.
    pub fn pending_update(&self, reading: &Option<Reading>) -> (res: Option<Vec<u8>>)
        requires
            self.wf(),
        ensures
            match res {
                Some(diff) => self@.update(*reading) == Some(diff@),
                None => self@.update(*reading) is None,
            },
    {
        let diff = self.terminal_state.diff_from(&self.client_assumed_state, reading);
        if diff.len() > 0 {
            Some(diff)
        } else {
            None
        }
    }

    /// The fragments for an update, which acknowledges what was received. Once they are sent, call
    /// [`Server::update_sent`].
    pub fn send_update(&mut self, diff: Vec<u8>) -> (res: Result<(Address, Vec<Fragment>), String>)
        requires
            old(self).wf(),
            old(self)@.transport.sender.state_num < u64::MAX,
        ensures
            final(self).wf(),
            final(self)@ == (ServerView {
                transport: TransportView {
                    connection: final(self)@.transport.connection,
                    ..old(self)@.transport
                },
                ..old(self)@
            }),
            connection::dispatched(
                old(self)@.transport.connection,
                old(self)@.transport.diff_instruction(
                    diff@,
                    old(self)@.transport.receiver.remote_state_num,
                    old(self)@.transport.sender.throwaway_num,
                ),
                res,
                final(self)@.transport.connection,
            ),
    {
        let ack_num: u64 = self.transport.receiver.remote_state_num();
        let throwaway: u64 = self.transport.sender.throwaway_num();
        self.transport.send_diff(diff, ack_num, throwaway)
    }

    /// Marks that the update was sent: the client now shows what the emulator was read to show.
    pub fn update_sent(&mut self, reading: &Option<Reading>, now: Instant)
        requires
            old(self).wf(),
            old(self)@.transport.sender.state_num < u64::MAX,
        ensures
            final(self).wf(),
            final(self)@ == old(self)@.after_update(*reading, now),
    {
        self.client_assumed_state = self.terminal_state.snapshot(reading);
        self.transport.mark_sent(now);
    }

    /// What a diff from the client asks for; `None` if it cannot be read.
    pub fn on_diff(&self, diff: &ReceivedDiff) -> (res: Option<Vec<ClientAction>>)
        ensures
            match res {
                Some(actions) => asked(diff@) == Some(pty::actions_view(actions@)),
                None => asked(diff@) is None,
            },
    {
        if diff.diff.len() == 0 {
            let none: Vec<ClientAction> = Vec::new();
            assert(pty::actions_view(none@) =~= Seq::<pty::ActionView>::empty());
            return Some(none);
        }
        match UserMessage::decode(diff.diff.as_slice()) {
            Ok(msg) => Some(client_actions(&msg)),
            Err(_) => None,
        }
    }

    /// Handles new dimensions: the terminal starts anew.
    pub fn resize(&mut self, size: PtySize)
        requires
            old(self).wf(),
        ensures
            final(self).wf(),
            final(self)@ == old(self)@.after_resize(size),
    {
        self.terminal_state = Complete::new(size.cols, size.rows);
    }

    /// Whether the session is over because the client ended it.
    pub fn ended(&self) -> (res: bool)
        ensures
            res == self@.transport.receiver.shutdown_received,
    {
        self.transport.receiver.shutdown_received()
    }

    /// Whether to send an acknowledgment because nothing was sent for a while.
    pub fn keepalive_due(&self, now: Instant) -> (res: bool)
        ensures
            res == self@.keepalive_due(now),
    {
        now.millis_since(self.transport.sender.last_send_time()) > KEEPALIVE_MS
    }
}

/// Once the client is up to date, what it is assumed to show is what the emulator shows.
pub proof fn update_catches_up(s: ServerView, reading: Option<Reading>, now: Instant)
    ensures
        s.after_update(reading, now).assumed == s.after_update(reading, now).terminal.screen(
            reading,
        ),
{
}

/// The server tells that it is alive once it has been silent for more than two seconds.
pub proof fn silence_ends_after_two_seconds(s: ServerView, now: Instant)
    ensures
        s.keepalive_due(now) <==> now.nanos >= s.transport.sender.last_send_time.nanos
            + 2_001_000_000,
{
}

/// An update turns the screen that the client shows into the one that was read, and is there
/// whenever it says anything. New dimensions begin a blank terminal and leave alone what the client
/// shows.
pub proof fn updates_tell_changes(
    s: ServerView,
    reading: Option<Reading>,
    size: PtySize,
    now: Instant,
)
    ensures
        ({
            let diff = vstd::utf8::encode_utf8(
                display::screen_update(s.assumed, s.terminal.screen(reading)),
            );
            &&& diff.len() > 0 ==> s.update(reading) == Some(diff)
            &&& diff.len() == 0 ==> s.update(reading) is None
        }),
        s.after_update(reading, now).terminal == s.terminal,
        s.after_resize(size).terminal.terminal.cols == size.cols,
        s.after_resize(size).terminal.terminal.rows == size.rows,
        s.after_resize(size).terminal.echo_ack == 0,
        s.after_resize(size).assumed == s.assumed,
        s.after_resize(size).transport == s.transport,
{
}

/// A diff asks for what its message holds; an empty one asks for nothing, and one that cannot be
/// read is refused.
pub proof fn diffs_are_read(diff: DiffView, list: Seq<client::InstructionView>)
    ensures
        diff.diff.len() == 0 ==> asked(diff) == Some(Seq::<pty::ActionView>::empty()),
        diff.diff.len() > 0 && client::message_of(diff.diff) is None ==> asked(diff) is None,
        client::message_countable(list) && diff.diff == client::message_bytes(list)
            && diff.diff.len() > 0 ==> asked(diff) == Some(pty::actions_of(list)),
{
    if client::message_countable(list) {
        client::message_roundtrip(list);
    }
}

} // verus!
