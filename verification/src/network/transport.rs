//! The transport: numbered states, acknowledgments, and when to send.

use crate::crypto::session;
use crate::crypto::session::CryptoError;
use crate::crypto::session::Message;
use crate::network::connection;
use crate::network::connection::timestamp16;
use crate::network::connection::Address;
use crate::network::connection::Connection;
use crate::network::connection::ConnectionView;
use crate::network::connection::RECEIVE_ROOM;
use crate::network::connection::ROUND_TRIP_LIMIT_MS;
use crate::network::constants::ACK_DELAY_MS;
use crate::network::constants::ACK_INTERVAL_MS;
use crate::network::constants::MIN_RTO_MS;
use crate::network::constants::MORSH_PROTOCOL_VERSION;
use crate::network::constants::SEND_INTERVAL_MAX_MS;
use crate::network::constants::SEND_INTERVAL_MIN_MS;
use crate::network::fragment;
use crate::network::fragment::add_chaff;
use crate::network::fragment::Fragment;
use crate::network::rtt;
use crate::network::rtt::clamp_u64;
use crate::proto::transport::copy_opt;
use crate::proto::transport::Instruction as TransportInstruction;
use crate::proto::transport::InstructionView;
use crate::time;
use crate::time::Instant;
use vstd::prelude::*;

verus! {

/// State of the transport sender.
#[derive(Debug, Clone, Copy, PartialEq, Eq, Structural)]
pub enum SendState {
    /// Normal sending at adaptive intervals.
    Active,
    /// Waiting for initial handshake.
    Pending,
    /// Shutting down, sending shutdown markers.
    Shutdown,
    /// Fully shut down.
    Done,
}

/// What a sender holds.
pub struct SenderView {
    pub state_num: u64,
    /// The number of the last state that was sent.
    pub last_sent_num: u64,
    pub acked_state_num: u64,
    pub throwaway_num: u64,
    pub last_send_time: Instant,
    pub send_interval_ms: u64,
    pub state: SendState,
    pub shutdown_retries: u32,
}

/// The larger of two numbers.
pub open spec fn larger(a: u64, b: u64) -> u64 {
    if b > a {
        b
    } else {
        a
    }
}

/// Whether at least `millis` milliseconds have passed, to the nanosecond.
pub open spec fn has_passed(since: Instant, now: Instant, millis: int) -> bool {
    time::nanos_between(since, now) >= millis * 1_000_000
}

/// Whether at least `millis` milliseconds have passed, to the nanosecond.
fn passed(since: Instant, now: Instant, millis: u64) -> (res: bool)
    requires
        millis <= 1_000_000,
    ensures
        res == has_passed(since, now, millis as int),
{
    now.nanos.saturating_sub(since.nanos) >= millis * 1_000_000
}

/// The instruction that takes the receiver from state `old_num` to state `new_num`.
pub open spec fn step(
    old_num: u64,
    new_num: u64,
    diff: Option<Seq<u8>>,
    ack_num: u64,
    throwaway_num: u64,
) -> InstructionView {
    InstructionView {
        protocol_version: Some(MORSH_PROTOCOL_VERSION),
        old_num: Some(old_num),
        new_num: Some(new_num),
        ack_num: Some(ack_num),
        throwaway_num: Some(throwaway_num),
        diff,
        chaff: None,
    }
}

impl SenderView {
    /// A sender that may send at once: its last packet counts as sent a second ago.
    pub open spec fn fresh(now: Instant) -> SenderView {
        SenderView {
            state_num: 0,
            last_sent_num: 0,
            acked_state_num: 0,
            throwaway_num: 0,
            last_send_time: Instant {
                nanos: if now.nanos >= 1_000_000_000 {
                    (now.nanos - 1_000_000_000) as u64
                } else {
                    0
                },
            },
            send_interval_ms: SEND_INTERVAL_MAX_MS,
            state: SendState::Pending,
            shutdown_retries: 0,
        }
    }

    /// The send interval for a round-trip time: half of it, rounded up, within bounds.
    pub open spec fn interval_for(rtt_ms: u64) -> int {
        rtt::clamped(
            (rtt_ms + 1) / 2,
            SEND_INTERVAL_MIN_MS as int,
            SEND_INTERVAL_MAX_MS as int,
        )
    }

    /// Whether it is time to send.
    pub open spec fn due(self, now: Instant) -> bool {
        match self.state {
            SendState::Active => has_passed(self.last_send_time, now, self.send_interval_ms as int),
            SendState::Shutdown => has_passed(self.last_send_time, now, MIN_RTO_MS as int),
            _ => false,
        }
    }

    /// On to the next state.
    pub open spec fn advanced(self) -> SenderView {
        SenderView { state_num: (self.state_num + 1) as u64, ..self }
    }

    /// The current state was sent.
    pub open spec fn sent(self, now: Instant) -> SenderView {
        SenderView { last_send_time: now, last_sent_num: self.state_num, ..self }
    }

    /// The remote has acknowledged a state.
    pub open spec fn acked(self, ack_num: u64) -> SenderView {
        SenderView { acked_state_num: larger(self.acked_state_num, ack_num), ..self }
    }

    /// The instruction for a diff: from the last state that was sent to the current one.
    pub open spec fn instruction(
        self,
        diff: Seq<u8>,
        ack_num: u64,
        throwaway_num: u64,
    ) -> InstructionView {
        step(self.last_sent_num, self.state_num, Some(diff), ack_num, throwaway_num)
    }

    /// The instruction that a diff is sent in: from the last state that was sent to the next one,
    /// with chaff that follows from the number of the current one.
    pub open spec fn next_instruction(
        self,
        diff: Seq<u8>,
        ack_num: u64,
        throwaway_num: u64,
    ) -> InstructionView {
        fragment::chaffed(
            self.advanced().instruction(diff, ack_num, throwaway_num),
            (self.state_num % 256) as u8,
        )
    }

    /// The instruction that ends a session: no diff, and the number that no state has.
    pub open spec fn shutdown_instruction(self, ack_num: u64) -> InstructionView {
        step(self.state_num, u64::MAX, None, ack_num, self.throwaway_num)
    }
}

/// Tracks the sender side of a state synchronization session.
///
/// Manages state numbers, ack tracking, and send timing for one direction of the transport.
#[derive(Debug, Clone, Copy)]
pub struct TransportSender {
    /// Current state number (monotonically increasing).
    state_num: u64,
    /// The number of the last state that was sent.
    last_sent_num: u64,
    /// What the remote has acknowledged.
    acked_state_num: u64,
    /// Number of throwaway packets received.
    throwaway_num: u64,
    /// Last time we sent a packet.
    last_send_time: Instant,
    /// Adaptive send interval based on RTT.
    send_interval_ms: u64,
    /// Current send state.
    state: SendState,
    /// Shutdown retry counter.
    shutdown_retries: u32,
}

impl View for TransportSender {
    type V = SenderView;

    closed spec fn view(&self) -> SenderView {
        SenderView {
            state_num: self.state_num,
            last_sent_num: self.last_sent_num,
            acked_state_num: self.acked_state_num,
            throwaway_num: self.throwaway_num,
            last_send_time: self.last_send_time,
            send_interval_ms: self.send_interval_ms,
            state: self.state,
            shutdown_retries: self.shutdown_retries,
        }
    }
}

impl TransportSender {
    /// The send interval is within bounds.
    pub open spec fn wf(&self) -> bool {
        SEND_INTERVAL_MIN_MS <= self@.send_interval_ms <= SEND_INTERVAL_MAX_MS
    }

    /// A sender made at a given time.
    pub fn new_at(now: Instant) -> (res: Self)
        ensures
            res.wf(),
            res@ == SenderView::fresh(now),
    {
        TransportSender {
            state_num: 0,
            last_sent_num: 0,
            acked_state_num: 0,
            throwaway_num: 0,
            last_send_time: Instant { nanos: now.nanos.saturating_sub(1_000_000_000) },
            send_interval_ms: SEND_INTERVAL_MAX_MS,
            state: SendState::Pending,
            shutdown_retries: 0,
        }
    }

    /// A sender. Both sides start alike.
    pub fn new(_client_side: bool) -> (res: Self)
        ensures
            res.wf(),
            exists|now: Instant| res@ == #[trigger] SenderView::fresh(now),
    {
        let now = Instant::now();
        Self::new_at(now)
    }

    /// The current state number.
    pub fn state_num(&self) -> (res: u64)
        ensures
            res == self@.state_num,
    {
        self.state_num
    }

    /// The acked state number.
    pub fn acked_state_num(&self) -> (res: u64)
        ensures
            res == self@.acked_state_num,
    {
        self.acked_state_num
    }

    /// The current send state.
    pub fn state(&self) -> (res: SendState)
        ensures
            res == self@.state,
    {
        self.state
    }

    /// The last time we sent a packet.
    pub fn last_send_time(&self) -> (res: Instant)
        ensures
            res == self@.last_send_time,
    {
        self.last_send_time
    }

    /// How often a shutdown marker was sent.
    pub fn shutdown_retries(&self) -> (res: u32)
        ensures
            res == self@.shutdown_retries,
    {
        self.shutdown_retries
    }

    /// Sets the send state.
    pub fn set_state(&mut self, state: SendState)
        requires
            old(self).wf(),
        ensures
            final(self).wf(),
            final(self)@ == (SenderView { state, ..old(self)@ }),
    {
        self.state = state;
    }

    /// The current send interval.
    pub fn send_interval_ms(&self) -> (res: u64)
        ensures
            res == self@.send_interval_ms,
    {
        self.send_interval_ms
    }

    /// Updates the send interval based on measured RTT.
    pub fn update_send_interval(&mut self, rtt_ms: u64)
        ensures
            final(self).wf(),
            final(self)@ == (SenderView {
                send_interval_ms: SenderView::interval_for(rtt_ms) as u64,
                ..old(self)@
            }),
    {
        let half: u64 = rtt_ms / 2 + rtt_ms % 2;
        self.send_interval_ms = clamp_u64(half, SEND_INTERVAL_MIN_MS, SEND_INTERVAL_MAX_MS);
    }

    /// Whether it is time to send.
    pub fn should_send(&self, now: Instant) -> (res: bool)
        requires
            self.wf(),
        ensures
            res == self@.due(now),
    {
        match self.state {
            SendState::Active => passed(self.last_send_time, now, self.send_interval_ms),
            SendState::Shutdown => passed(self.last_send_time, now, MIN_RTO_MS),
            _ => false,
        }
    }

    /// Marks that the current state was just sent.
    pub fn record_send(&mut self, now: Instant)
        requires
            old(self).wf(),
        ensures
            final(self).wf(),
            final(self)@ == old(self)@.sent(now),
    {
        self.last_send_time = now;
        self.last_sent_num = self.state_num;
    }

    /// Goes on to the next state.
    pub fn advance_state(&mut self)
        requires
            old(self).wf(),
            old(self)@.state_num < u64::MAX,
        ensures
            final(self).wf(),
            final(self)@ == old(self)@.advanced(),
    {
        self.state_num = self.state_num + 1;
    }

    /// Records an ack from the remote.
    pub fn record_ack(&mut self, ack_num: u64)
        requires
            old(self).wf(),
        ensures
            final(self).wf(),
            final(self)@ == old(self)@.acked(ack_num),
    {
        if ack_num > self.acked_state_num {
            self.acked_state_num = ack_num;
        }
    }

    /// Records receiving a throwaway packet.
    pub fn record_throwaway(&mut self)
        requires
            old(self).wf(),
            old(self)@.throwaway_num < u64::MAX,
        ensures
            final(self).wf(),
            final(self)@ == (SenderView {
                throwaway_num: (old(self)@.throwaway_num + 1) as u64,
                ..old(self)@
            }),
    {
        self.throwaway_num = self.throwaway_num + 1;
    }

    /// The throwaway count.
    pub fn throwaway_num(&self) -> (res: u64)
        ensures
            res == self@.throwaway_num,
    {
        self.throwaway_num
    }

    /// Builds an instruction for a state diff: `old_num` is the number of the last state that was
    /// sent, `new_num` that of the current state.
    pub fn build_instruction(&mut self, diff: Vec<u8>, ack_num: u64, throwaway_num: u64) -> (res:
        TransportInstruction)
        ensures
            *final(self) == *old(self),
            res@ == old(self)@.instruction(diff@, ack_num, throwaway_num),
    {
        TransportInstruction {
            protocol_version: Some(MORSH_PROTOCOL_VERSION),
            old_num: Some(self.last_sent_num),
            new_num: Some(self.state_num),
            ack_num: Some(ack_num),
            throwaway_num: Some(throwaway_num),
            diff: Some(diff),
            chaff: None,
        }
    }

    /// Builds the instruction that a diff is sent in: it leads to the next state, and has chaff.
    pub fn next_instruction(&self, diff: Vec<u8>, ack_num: u64, throwaway_num: u64) -> (res:
        TransportInstruction)
        requires
            self.wf(),
            self@.state_num < u64::MAX,
        ensures
            res@ == self@.next_instruction(diff@, ack_num, throwaway_num),
    {
        let mut next = *self;
        next.advance_state();
        let mut inst = next.build_instruction(diff, ack_num, throwaway_num);
        let chaff_byte: u8 = (self.state_num % 256) as u8;
        add_chaff(&mut inst, chaff_byte);
        inst
    }

    /// Builds a shutdown instruction (no diff, and the largest number as `new_num`), which tells a
    /// shutdown from an empty keepalive.
    pub fn build_shutdown_instruction(&mut self, ack_num: u64) -> (res: TransportInstruction)
        ensures
            *final(self) == *old(self),
            res@ == old(self)@.shutdown_instruction(ack_num),
    {
        TransportInstruction {
            protocol_version: Some(MORSH_PROTOCOL_VERSION),
            old_num: Some(self.state_num),
            new_num: Some(u64::MAX),
            ack_num: Some(ack_num),
            throwaway_num: Some(self.throwaway_num),
            diff: None,
            chaff: None,
        }
    }
}

/// What a receiver holds.
pub struct ReceiverView {
    pub state_num: u64,
    pub acked_state_num: u64,
    pub remote_state_num: u64,
    pub last_recv_time: Instant,
    pub shutdown_received: bool,
    pub pending_ack: bool,
    pub ack_deadline: Option<Instant>,
    pub last_ack_time: Instant,
}

impl ReceiverView {
    /// A receiver that has received nothing.
    pub open spec fn fresh(now: Instant) -> ReceiverView {
        ReceiverView {
            state_num: 0,
            acked_state_num: 0,
            remote_state_num: 0,
            last_recv_time: now,
            shutdown_received: false,
            pending_ack: false,
            ack_deadline: None,
            last_ack_time: now,
        }
    }

    /// After a packet: an acknowledgment is owed soon, unless one is owed already.
    pub open spec fn after_packet(self, now: Instant) -> ReceiverView {
        ReceiverView {
            last_recv_time: now,
            pending_ack: true,
            ack_deadline: if self.pending_ack {
                self.ack_deadline
            } else {
                Some(time::later_by(now, ACK_DELAY_MS as nat))
            },
            ..self
        }
    }

    /// Whether an acknowledgment is due: one is owed and its time has come, or none was sent for a
    /// while.
    pub open spec fn ack_due(self, now: Instant) -> bool {
        ||| self.ack_deadline matches Some(deadline) && now.nanos >= deadline.nanos
        ||| has_passed(self.last_ack_time, now, ACK_INTERVAL_MS as int)
    }

    /// After an acknowledgment.
    pub open spec fn after_ack(self, now: Instant) -> ReceiverView {
        ReceiverView { pending_ack: false, ack_deadline: None, last_ack_time: now, ..self }
    }

    /// The state that was acknowledged.
    pub open spec fn acked(self, ack_num: u64) -> ReceiverView {
        ReceiverView { acked_state_num: larger(self.acked_state_num, ack_num), ..self }
    }

    /// After a diff arrived: the numbers that it tells are kept if they are larger.
    pub open spec fn taken(self, diff: DiffView, now: Instant) -> ReceiverView {
        let received = self.after_packet(now).acked(diff.ack_num);
        ReceiverView {
            remote_state_num: larger(received.remote_state_num, diff.new_num),
            shutdown_received: received.shutdown_received || diff.is_shutdown(),
            ..received
        }
    }
}

/// Tracks the receiver side of a state synchronization session.
#[derive(Debug)]
pub struct TransportReceiver {
    /// Current state number we've applied.
    state_num: u64,
    /// What we've acknowledged to the remote.
    acked_state_num: u64,
    /// The remote's last state number.
    remote_state_num: u64,
    /// Last time we received a packet.
    last_recv_time: Instant,
    /// Shutdown state.
    shutdown_received: bool,
    /// Whether we have a pending delayed ACK to send.
    pending_ack: bool,
    /// When the delayed ACK should fire.
    ack_deadline: Option<Instant>,
    /// Last time we sent an ACK.
    last_ack_time: Instant,
}

impl View for TransportReceiver {
    type V = ReceiverView;

    closed spec fn view(&self) -> ReceiverView {
        ReceiverView {
            state_num: self.state_num,
            acked_state_num: self.acked_state_num,
            remote_state_num: self.remote_state_num,
            last_recv_time: self.last_recv_time,
            shutdown_received: self.shutdown_received,
            pending_ack: self.pending_ack,
            ack_deadline: self.ack_deadline,
            last_ack_time: self.last_ack_time,
        }
    }
}

/// A received state diff with metadata.
#[derive(Debug)]
pub struct ReceivedDiff {
    /// The diff bytes (encoded state).
    pub diff: Vec<u8>,
    /// Remote's view of our state number.
    pub old_num: u64,
    /// Remote's new state number.
    pub new_num: u64,
    /// Remote's ack of our state.
    pub ack_num: u64,
    /// Throwaway count.
    pub throwaway_num: u64,
}

/// What a received diff holds.
#[verifier::ext_equal]
pub struct DiffView {
    pub diff: Seq<u8>,
    pub old_num: u64,
    pub new_num: u64,
    pub ack_num: u64,
    pub throwaway_num: u64,
}

impl View for ReceivedDiff {
    type V = DiffView;

    open spec fn view(&self) -> DiffView {
        DiffView {
            diff: self.diff@,
            old_num: self.old_num,
            new_num: self.new_num,
            ack_num: self.ack_num,
            throwaway_num: self.throwaway_num,
        }
    }
}

/// A number, or zero.
pub open spec fn or_zero(n: Option<u64>) -> u64 {
    match n {
        Some(n) => n,
        None => 0,
    }
}

/// A number, or zero.
fn number_or_zero(n: Option<u64>) -> (res: u64)
    ensures
        res == or_zero(n),
{
    match n {
        Some(n) => n,
        None => 0,
    }
}

/// What an instruction says, where what it leaves out is empty or zero.
pub open spec fn parsed(inst: InstructionView) -> DiffView {
    DiffView {
        diff: match inst.diff {
            Some(diff) => diff,
            None => Seq::empty(),
        },
        old_num: or_zero(inst.old_num),
        new_num: or_zero(inst.new_num),
        ack_num: or_zero(inst.ack_num),
        throwaway_num: or_zero(inst.throwaway_num),
    }
}

impl DiffView {
    /// Whether this ends the session.
    pub open spec fn is_shutdown(self) -> bool {
        self.diff.len() == 0 && self.new_num == u64::MAX
    }

    /// The state to acknowledge at once: that of a diff that holds something.
    pub open spec fn owed_ack(self) -> Option<u64> {
        if self.diff.len() > 0 {
            Some(self.new_num)
        } else {
            None
        }
    }
}

impl ReceivedDiff {
    /// The state to acknowledge at once, if there is one. The remote sends again what is not
    /// acknowledged soon.
    pub fn owed_ack(&self) -> (res: Option<u64>)
        ensures
            res == self@.owed_ack(),
    {
        if self.diff.len() > 0 {
            Some(self.new_num)
        } else {
            None
        }
    }
}

impl TransportReceiver {
    /// A receiver made at a given time.
    pub fn new_at(now: Instant) -> (res: Self)
        ensures
            res@ == ReceiverView::fresh(now),
    {
        TransportReceiver {
            state_num: 0,
            acked_state_num: 0,
            remote_state_num: 0,
            last_recv_time: now,
            shutdown_received: false,
            pending_ack: false,
            ack_deadline: None,
            last_ack_time: now,
        }
    }

    /// A receiver. Both sides start alike.
    pub fn new(_client_side: bool) -> (res: Self)
        ensures
            exists|now: Instant| res@ == #[trigger] ReceiverView::fresh(now),
    {
        let now = Instant::now();
        Self::new_at(now)
    }

    /// The current state number.
    pub fn state_num(&self) -> (res: u64)
        ensures
            res == self@.state_num,
    {
        self.state_num
    }

    /// The acked state number.
    pub fn acked_state_num(&self) -> (res: u64)
        ensures
            res == self@.acked_state_num,
    {
        self.acked_state_num
    }

    /// The remote's last state number.
    pub fn remote_state_num(&self) -> (res: u64)
        ensures
            res == self@.remote_state_num,
    {
        self.remote_state_num
    }

    /// Whether we've received a shutdown.
    pub fn shutdown_received(&self) -> (res: bool)
        ensures
            res == self@.shutdown_received,
    {
        self.shutdown_received
    }

    /// Whether a delayed ACK is pending.
    pub fn pending_ack(&self) -> (res: bool)
        ensures
            res == self@.pending_ack,
    {
        self.pending_ack
    }

    /// When the delayed ACK should fire.
    pub fn ack_deadline(&self) -> (res: Option<Instant>)
        ensures
            res == self@.ack_deadline,
    {
        self.ack_deadline
    }

    /// Marks that we received a shutdown.
    pub fn set_shutdown_received(&mut self)
        ensures
            final(self)@ == (ReceiverView { shutdown_received: true, ..old(self)@ }),
    {
        self.shutdown_received = true;
    }

    /// Records that we applied a new state.
    pub fn advance_state(&mut self)
        requires
            old(self)@.state_num < u64::MAX,
        ensures
            final(self)@ == (ReceiverView {
                state_num: (old(self)@.state_num + 1) as u64,
                ..old(self)@
            }),
    {
        self.state_num = self.state_num + 1;
    }

    /// Records that we sent an ack.
    pub fn record_ack_sent(&mut self, ack_num: u64)
        ensures
            final(self)@ == old(self)@.acked(ack_num),
    {
        if ack_num > self.acked_state_num {
            self.acked_state_num = ack_num;
        }
    }

    /// Records that we received a packet. Schedules a delayed ACK.
    pub fn record_recv(&mut self, now: Instant)
        ensures
            final(self)@ == old(self)@.after_packet(now),
    {
        self.last_recv_time = now;
        if !self.pending_ack {
            self.pending_ack = true;
            self.ack_deadline = Some(now.plus_millis(ACK_DELAY_MS));
        }
    }

    /// Whether to send an ACK now: the delayed ACK deadline has passed, or the periodic ACK interval
    /// has elapsed.
    pub fn should_send_ack(&self, now: Instant) -> (res: bool)
        ensures
            res == self@.ack_due(now),
    {
        if let Some(deadline) = self.ack_deadline {
            if now.nanos >= deadline.nanos {
                return true;
            }
        }
        passed(self.last_ack_time, now, ACK_INTERVAL_MS)
    }

    /// Marks that we just sent an ACK. Clears the pending ACK state.
    pub fn ack_sent(&mut self, now: Instant)
        ensures
            final(self)@ == old(self)@.after_ack(now),
    {
        self.pending_ack = false;
        self.ack_deadline = None;
        self.last_ack_time = now;
    }

    /// Records that we received a diff.
    pub fn take(&mut self, diff: &ReceivedDiff, now: Instant)
        ensures
            final(self)@ == old(self)@.taken(diff@, now),
    {
        self.record_recv(now);
        if diff.new_num > self.remote_state_num {
            self.remote_state_num = diff.new_num;
        }
        self.record_ack_sent(diff.ack_num);
        if diff.diff.len() == 0 && diff.new_num == u64::MAX {
            self.set_shutdown_received();
        }
    }

    /// Parses a received instruction.
    pub fn parse_instruction(inst: &TransportInstruction) -> (res: ReceivedDiff)
        ensures
            res@ == parsed(inst@),
    {
        let diff = match copy_opt(&inst.diff) {
            Some(diff) => diff,
            None => Vec::new(),
        };
        let res = ReceivedDiff {
            diff,
            old_num: number_or_zero(inst.old_num),
            new_num: number_or_zero(inst.new_num),
            ack_num: number_or_zero(inst.ack_num),
            throwaway_num: number_or_zero(inst.throwaway_num),
        };
        assert(res@ =~= parsed(inst@));
        res
    }
}

/// What a transport holds.
#[verifier::ext_equal]
pub struct TransportView {
    pub sender: SenderView,
    pub receiver: ReceiverView,
    pub connection: ConnectionView,
}

impl TransportView {
    /// The instruction that a diff is sent in.
    pub open spec fn diff_instruction(
        self,
        diff: Seq<u8>,
        ack_num: u64,
        throwaway_num: u64,
    ) -> InstructionView {
        self.sender.next_instruction(diff, ack_num, throwaway_num)
    }

    /// The instruction for an acknowledgment without a diff.
    pub open spec fn ack_instruction(self, ack_num: u64) -> InstructionView {
        self.diff_instruction(Seq::empty(), ack_num, self.sender.throwaway_num)
    }

    /// The instruction that a client opens a session with, however often: from the state that both
    /// sides start in to the first one.
    pub open spec fn handshake_instruction(
        self,
        diff: Seq<u8>,
        ack_num: u64,
        throwaway_num: u64,
    ) -> InstructionView {
        fragment::chaffed(
            step(0, 1, Some(diff), ack_num, throwaway_num),
            (self.sender.state_num % 256) as u8,
        )
    }

    /// After a diff or an acknowledgment was sent: on to the next state. What was owed as an
    /// acknowledgment went with it.
    pub open spec fn after_sent(self, now: Instant) -> TransportView {
        TransportView {
            sender: self.sender.advanced().sent(now),
            receiver: self.receiver.after_ack(now),
            ..self
        }
    }

    /// After something was sent that is no new state.
    pub open spec fn after_resent(self, now: Instant) -> TransportView {
        TransportView {
            sender: SenderView { last_send_time: now, ..self.sender },
            receiver: self.receiver.after_ack(now),
            ..self
        }
    }

    /// After a shutdown marker was sent.
    pub open spec fn after_shutdown_sent(self, now: Instant) -> TransportView {
        TransportView {
            sender: SenderView {
                last_send_time: now,
                shutdown_retries: (self.sender.shutdown_retries + 1) as u32,
                ..self.sender
            },
            receiver: self.receiver.after_ack(now),
            ..self
        }
    }

    /// After an instruction arrived: the time since the last send is a sample of the round-trip time,
    /// and the numbers that it tells are kept if they are larger.
    pub open spec fn after_instruction(self, inst: InstructionView, now: Instant) -> TransportView {
        let diff = parsed(inst);
        let trip = time::millis_between(self.sender.last_send_time, now);
        TransportView {
            sender: self.sender.acked(diff.ack_num),
            receiver: self.receiver.taken(diff, now),
            connection: ConnectionView {
                rtt: if 0 < trip < ROUND_TRIP_LIMIT_MS {
                    self.connection.rtt.updated(trip as u64)
                } else {
                    self.connection.rtt
                },
                ..self.connection
            },
        }
    }

    /// After what a packet gave, where `connection` is the connection after it.
    pub open spec fn after_outcome(
        self,
        connection: ConnectionView,
        outcome: Result<Option<InstructionView>, Seq<char>>,
        now: Instant,
    ) -> TransportView {
        match outcome {
            Ok(Some(inst)) => (TransportView { connection, ..self }).after_instruction(inst, now),
            _ => TransportView { connection, ..self },
        }
    }
}

/// What an outcome says.
pub open spec fn parsed_outcome(outcome: Result<Option<InstructionView>, Seq<char>>) -> Result<
    Option<DiffView>,
    Seq<char>,
> {
    match outcome {
        Ok(Some(inst)) => Ok(Some(parsed(inst))),
        Ok(None) => Ok(None),
        Err(e) => Err(e),
    }
}

/// What was received.
pub open spec fn received_view(res: Result<Option<ReceivedDiff>, String>) -> Result<
    Option<DiffView>,
    Seq<char>,
> {
    match res {
        Ok(Some(diff)) => Ok(Some(diff@)),
        Ok(None) => Ok(None),
        Err(e) => Err(e@),
    }
}

/// Combined transport for bidirectional state synchronization.
///
/// Ties together connection, ack tracking, and send timing. To send, a caller asks for the fragments
/// with a `send_` function, encrypts and sends each of them, and then marks that they were sent.
pub struct Transport {
    pub sender: TransportSender,
    pub receiver: TransportReceiver,
    pub connection: Connection,
}

impl View for Transport {
    type V = TransportView;

    open spec fn view(&self) -> TransportView {
        TransportView {
            sender: self.sender@,
            receiver: self.receiver@,
            connection: self.connection@,
        }
    }
}

impl Transport {
    /// The parts are well-formed.
    pub open spec fn wf(&self) -> bool {
        &&& self.sender.wf()
        &&& self.connection.wf()
    }

    /// A transport made at a given time.
    pub fn new_at(connection: Connection, now: Instant) -> (res: Self)
        requires
            connection.wf(),
        ensures
            res.wf(),
            res@ == (TransportView {
                sender: SenderView::fresh(now),
                receiver: ReceiverView::fresh(now),
                connection: connection@,
            }),
    {
        Transport {
            sender: TransportSender::new_at(now),
            receiver: TransportReceiver::new_at(now),
            connection,
        }
    }

    /// A new transport (client side).
    pub fn new_client(connection: Connection) -> (res: Self)
        requires
            connection.wf(),
        ensures
            res.wf(),
            res@.connection == connection@,
            exists|now: Instant| res@.sender == #[trigger] SenderView::fresh(now),
            exists|now: Instant| res@.receiver == #[trigger] ReceiverView::fresh(now),
    {
        let now = Instant::now();
        Self::new_at(connection, now)
    }

    /// A new transport (server side).
    pub fn new_server(connection: Connection) -> (res: Self)
        requires
            connection.wf(),
        ensures
            res.wf(),
            res@.connection == connection@,
            exists|now: Instant| res@.sender == #[trigger] SenderView::fresh(now),
            exists|now: Instant| res@.receiver == #[trigger] ReceiverView::fresh(now),
    {
        let now = Instant::now();
        Self::new_at(connection, now)
    }

    /// The connection.
    pub fn connection(&self) -> (res: &Connection)
        ensures
            *res == self.connection,
    {
        &self.connection
    }

    /// The connection, to be changed.
    pub fn connection_mut(&mut self) -> (res: &mut Connection)
        ensures
            *res == old(self).connection,
            *final(self) == (Transport { connection: *final(res), ..*old(self) }),
    {
        &mut self.connection
    }

    /// The fragments for a state diff. Once they are sent, call [`Transport::mark_sent`].
    pub fn send_diff(&mut self, diff: Vec<u8>, ack_num: u64, throwaway_num: u64) -> (res: Result<
        (Address, Vec<Fragment>),
        String,
    >)
        requires
            old(self).wf(),
            old(self)@.sender.state_num < u64::MAX,
        ensures
            final(self).wf(),
            final(self)@.sender == old(self)@.sender,
            final(self)@.receiver == old(self)@.receiver,
            connection::dispatched(
                old(self)@.connection,
                old(self)@.diff_instruction(diff@, ack_num, throwaway_num),
                res,
                final(self)@.connection,
            ),
    {
        let inst = self.sender.next_instruction(diff, ack_num, throwaway_num);
        self.connection.send(&inst)
    }

    /// The fragments for an empty ACK (no diff). Used for delayed ACKs and periodic ACKs. Once they
    /// are sent, call [`Transport::mark_sent`]: an ACK advances the state number just like a data
    /// send, so that no two instructions share a number.
    pub fn send_ack(&mut self, ack_num: u64) -> (res: Result<(Address, Vec<Fragment>), String>)
        requires
            old(self).wf(),
            old(self)@.sender.state_num < u64::MAX,
        ensures
            final(self).wf(),
            final(self)@.sender == old(self)@.sender,
            final(self)@.receiver == old(self)@.receiver,
            connection::dispatched(
                old(self)@.connection,
                old(self)@.ack_instruction(ack_num),
                res,
                final(self)@.connection,
            ),
    {
        let empty: Vec<u8> = Vec::new();
        assert(empty@ =~= Seq::<u8>::empty());
        let throwaway_num: u64 = self.sender.throwaway_num();
        self.send_diff(empty, ack_num, throwaway_num)
    }

    /// Marks that a diff or an ACK was sent.
    pub fn mark_sent(&mut self, now: Instant)
        requires
            old(self).wf(),
            old(self)@.sender.state_num < u64::MAX,
        ensures
            final(self).wf(),
            final(self)@ == old(self)@.after_sent(now),
    {
        self.sender.advance_state();
        self.sender.record_send(now);
        self.receiver.ack_sent(now);
    }

    /// The fragments for a diff that opens the session, sent again until the server answers. Once
    /// they are sent, call [`Transport::mark_resent`].
    pub fn send_handshake_message(&mut self, diff: Vec<u8>, ack_num: u64, throwaway_num: u64) -> (res:
        Result<(Address, Vec<Fragment>), String>)
        requires
            old(self).wf(),
        ensures
            final(self).wf(),
            final(self)@.sender == old(self)@.sender,
            final(self)@.receiver == old(self)@.receiver,
            connection::dispatched(
                old(self)@.connection,
                old(self)@.handshake_instruction(diff@, ack_num, throwaway_num),
                res,
                final(self)@.connection,
            ),
    {
        let mut inst = TransportInstruction {
            protocol_version: Some(MORSH_PROTOCOL_VERSION),
            old_num: Some(0),
            new_num: Some(1),
            ack_num: Some(ack_num),
            throwaway_num: Some(throwaway_num),
            diff: Some(diff),
            chaff: None,
        };
        let chaff_byte: u8 = (self.sender.state_num() % 256) as u8;
        add_chaff(&mut inst, chaff_byte);
        self.connection.send(&inst)
    }

    /// Marks that something was sent that is no new state.
    pub fn mark_resent(&mut self, now: Instant)
        requires
            old(self).wf(),
        ensures
            final(self).wf(),
            final(self)@ == old(self)@.after_resent(now),
    {
        self.sender.last_send_time = now;
        self.receiver.ack_sent(now);
    }

    /// The fragments for a shutdown marker. Once they are sent, call
    /// [`Transport::mark_shutdown_sent`].
    pub fn send_shutdown(&mut self, ack_num: u64) -> (res: Result<(Address, Vec<Fragment>), String>)
        requires
            old(self).wf(),
        ensures
            final(self).wf(),
            final(self)@.sender == old(self)@.sender,
            final(self)@.receiver == old(self)@.receiver,
            connection::dispatched(
                old(self)@.connection,
                old(self)@.sender.shutdown_instruction(ack_num),
                res,
                final(self)@.connection,
            ),
    {
        let inst = self.sender.build_shutdown_instruction(ack_num);
        self.connection.send(&inst)
    }

    /// Marks that a shutdown marker was sent.
    pub fn mark_shutdown_sent(&mut self, now: Instant)
        requires
            old(self).wf(),
            old(self)@.sender.shutdown_retries < u32::MAX,
        ensures
            final(self).wf(),
            final(self)@ == old(self)@.after_shutdown_sent(now),
    {
        self.sender.last_send_time = now;
        self.sender.shutdown_retries = self.sender.shutdown_retries + 1;
        self.receiver.ack_sent(now);
    }

    /// Takes an instruction that arrived. See [`ReceivedDiff::owed_ack`] for what to acknowledge at
    /// once.
    pub fn take_instruction(&mut self, inst: &TransportInstruction, now: Instant) -> (res:
        ReceivedDiff)
        requires
            old(self).wf(),
        ensures
            final(self).wf(),
            final(self)@ == old(self)@.after_instruction(inst@, now),
            res@ == parsed(inst@),
    {
        let trip: u64 = now.millis_since(self.sender.last_send_time());
        if trip > 0 && trip < ROUND_TRIP_LIMIT_MS {
            self.connection.record_rtt(trip);
        }
        let diff = TransportReceiver::parse_instruction(inst);
        self.receiver.take(&diff, now);
        self.sender.record_ack(diff.ack_num);
        diff
    }

    /// Takes a packet that arrived from a peer at a given time. Gives the state diff that it
    /// completes, if any.
    pub fn recv_diff_at(&mut self, data: &[u8], peer: Address, now: Instant) -> (res: Result<
        Option<ReceivedDiff>,
        String,
    >)
        requires
            old(self).wf(),
            data@.len() <= RECEIVE_ROOM,
        ensures
            final(self).wf(),
            data@.len() == 0 ==> final(self)@ == old(self)@ && received_view(res) == Ok::<
                Option<DiffView>,
                Seq<char>,
            >(None),
            data@.len() > 0 ==> exists|msg: Result<Message, CryptoError>| #[trigger]
                session::opened(old(self)@.connection.session.key, data@, msg) && match msg {
                    Ok(m) => {
                        &&& final(self)@ == old(self)@.after_outcome(
                            old(self)@.connection.after_packet(m.text@, peer, now),
                            old(self)@.connection.outcome(m.text@),
                            now,
                        )
                        &&& received_view(res) == parsed_outcome(
                            old(self)@.connection.outcome(m.text@),
                        )
                    },
                    Err(e) => {
                        &&& final(self)@ == (TransportView {
                            connection: old(self)@.connection.learned(peer),
                            ..old(self)@
                        })
                        &&& received_view(res) == Err::<Option<DiffView>, Seq<char>>(
                            connection::decryption_error(e),
                        )
                    },
                },
    {
        self.recv_diff_stamped(data, peer, timestamp16(now), now)
    }

    /// Takes a packet that arrived from a peer at a given time, with the timestamp of that time.
    pub fn recv_diff_stamped(&mut self, data: &[u8], peer: Address, stamp: u16, now: Instant) -> (res:
        Result<Option<ReceivedDiff>, String>)
        requires
            old(self).wf(),
            data@.len() <= RECEIVE_ROOM,
        ensures
            final(self).wf(),
            data@.len() == 0 ==> final(self)@ == old(self)@ && received_view(res) == Ok::<
                Option<DiffView>,
                Seq<char>,
            >(None),
            data@.len() > 0 ==> exists|msg: Result<Message, CryptoError>| #[trigger]
                session::opened(old(self)@.connection.session.key, data@, msg) && match msg {
                    Ok(m) => {
                        &&& final(self)@ == old(self)@.after_outcome(
                            old(self)@.connection.after_packet_stamped(m.text@, peer, stamp, now),
                            old(self)@.connection.outcome(m.text@),
                            now,
                        )
                        &&& received_view(res) == parsed_outcome(
                            old(self)@.connection.outcome(m.text@),
                        )
                    },
                    Err(e) => {
                        &&& final(self)@ == (TransportView {
                            connection: old(self)@.connection.learned(peer),
                            ..old(self)@
                        })
                        &&& received_view(res) == Err::<Option<DiffView>, Seq<char>>(
                            connection::decryption_error(e),
                        )
                    },
                },
    {
        match self.connection.recv_stamped(data, peer, stamp, now) {
            Ok(Some(inst)) => Ok(Some(self.take_instruction(&inst, now))),
            Ok(None) => Ok(None),
            Err(e) => Err(e),
        }
    }

    /// Takes a packet that arrived from a peer. Gives the state diff that it completes, if any.
    pub fn recv_diff(&mut self, data: &[u8], peer: Address) -> (res: Result<
        Option<ReceivedDiff>,
        String,
    >)
        requires
            old(self).wf(),
            data@.len() <= RECEIVE_ROOM,
        ensures
            final(self).wf(),
            data@.len() == 0 ==> final(self)@ == old(self)@ && received_view(res) == Ok::<
                Option<DiffView>,
                Seq<char>,
            >(None),
            data@.len() > 0 ==> exists|
                msg: Result<Message, CryptoError>,
                stamp: u16,
                now: Instant,
            |
                #![trigger session::opened(old(self)@.connection.session.key, data@, msg), connection::read_together(stamp, now)]
                connection::read_together(stamp, now) && session::opened(
                    old(self)@.connection.session.key,
                    data@,
                    msg,
                ) && match msg {
                    Ok(m) => {
                        &&& final(self)@ == old(self)@.after_outcome(
                            old(self)@.connection.after_packet_stamped(
                                m.text@,
                                peer,
                                stamp,
                                now,
                            ),
                            old(self)@.connection.outcome(m.text@),
                            now,
                        )
                        &&& received_view(res) == parsed_outcome(
                            old(self)@.connection.outcome(m.text@),
                        )
                    },
                    Err(e) => {
                        &&& final(self)@ == (TransportView {
                            connection: old(self)@.connection.learned(peer),
                            ..old(self)@
                        })
                        &&& received_view(res) == Err::<Option<DiffView>, Seq<char>>(
                            connection::decryption_error(e),
                        )
                    },
                },
    {
        let stamp: u16 = timestamp16(Instant::wall_clock());
        let now = Instant::now();
        assert(connection::read_together(stamp, now));
        self.recv_diff_stamped(data, peer, stamp, now)
    }

    /// Whether it is time to send.
    pub fn should_send(&self, now: Instant) -> (res: bool)
        requires
            self.wf(),
        ensures
            res == self@.sender.due(now),
    {
        self.sender.should_send(now)
    }

    /// Whether to send an empty ACK now.
    pub fn should_send_ack(&self, now: Instant) -> (res: bool)
        ensures
            res == self@.receiver.ack_due(now),
    {
        self.receiver.should_send_ack(now)
    }

    /// Updates the send interval from the RTT.
    pub fn update_send_interval(&mut self, rtt_ms: u64)
        requires
            old(self).wf(),
        ensures
            final(self).wf(),
            final(self)@ == (TransportView {
                sender: SenderView {
                    send_interval_ms: SenderView::interval_for(rtt_ms) as u64,
                    ..old(self)@.sender
                },
                ..old(self)@
            }),
    {
        self.sender.update_send_interval(rtt_ms);
    }

    /// Marks that a new port was chosen.
    pub fn hop_port(&mut self, now: Instant)
        requires
            old(self).wf(),
        ensures
            final(self).wf(),
            final(self)@ == (TransportView {
                connection: ConnectionView { last_port_choice: now, ..old(self)@.connection },
                ..old(self)@
            }),
    {
        self.connection.hop_port(now);
    }

    /// Whether to hop ports.
    pub fn should_hop_port(&self, now: Instant) -> (res: bool)
        ensures
            res == self@.connection.hops(now),
    {
        self.connection.should_hop_port(now)
    }
}

/// Consecutive sends chain: each instruction starts from the state that the one before it led to, and
/// leads to a state that none before it led to.
pub proof fn sends_chain(t: TransportView, diff: Seq<u8>, ack: u64, throwaway: u64, now: Instant)
    requires
        t.sender.state_num < u64::MAX - 1,
    ensures
        ({
            let first = t.diff_instruction(diff, ack, throwaway);
            let then = t.after_sent(now);
            &&& first.old_num == Some(t.sender.last_sent_num)
            &&& first.new_num == Some((t.sender.state_num + 1) as u64)
            &&& forall|d: Seq<u8>, a: u64, w: u64|
                #![trigger then.diff_instruction(d, a, w)]
                then.diff_instruction(d, a, w).old_num == first.new_num && then.diff_instruction(
                    d,
                    a,
                    w,
                ).new_num == Some((t.sender.state_num + 2) as u64)
        }),
{
}

/// A state that was sent is the one that the sender is in, so that nothing is skipped.
pub proof fn sent_is_current(t: TransportView, now: Instant)
    requires
        t.sender.state_num < u64::MAX,
    ensures
        t.after_sent(now).sender.last_sent_num == t.after_sent(now).sender.state_num,
{
}

/// What is acknowledged, and the remote state that is known of, never go back.
pub proof fn numbers_never_go_back(t: TransportView, inst: InstructionView, now: Instant)
    ensures
        t.after_instruction(inst, now).sender.acked_state_num >= t.sender.acked_state_num,
        t.after_instruction(inst, now).sender.acked_state_num >= or_zero(inst.ack_num),
        t.after_instruction(inst, now).receiver.remote_state_num >= t.receiver.remote_state_num,
        t.after_instruction(inst, now).receiver.remote_state_num >= or_zero(inst.new_num),
        t.receiver.shutdown_received ==> t.after_instruction(inst, now).receiver.shutdown_received,
{
}

/// A packet is acknowledged within the delay: however many more arrive, the acknowledgment is due
/// when the delay after the first one has passed.
pub proof fn ack_due_within_delay(r: ReceiverView, first: Instant, more: Instant, now: Instant)
    requires
        !r.pending_ack,
        now.nanos >= time::later_by(first, ACK_DELAY_MS as nat).nanos,
    ensures
        r.after_packet(first).ack_due(now),
        r.after_packet(first).after_packet(more).ack_due(now),
        r.after_packet(first).after_packet(more).ack_deadline == r.after_packet(first).ack_deadline,
{
}

/// After an acknowledgment none is due for the whole interval, unless something arrives.
pub proof fn quiet_after_ack(r: ReceiverView, sent: Instant, now: Instant)
    ensures
        r.after_ack(sent).ack_due(now) <==> time::nanos_between(sent, now) >= ACK_INTERVAL_MS
            * 1_000_000,
{
}

/// A diff carries the acknowledgment that was owed.
pub proof fn diff_carries_ack(t: TransportView, now: Instant)
    ensures
        !t.after_sent(now).receiver.pending_ack,
        t.after_sent(now).receiver.ack_deadline is None,
{
}

/// The send interval is always within its bounds, and what was just sent is not sent again before it
/// has passed.
pub proof fn sends_are_spaced(s: SenderView, rtt_ms: u64, sent: Instant, now: Instant)
    ensures
        SEND_INTERVAL_MIN_MS <= SenderView::interval_for(rtt_ms) <= SEND_INTERVAL_MAX_MS,
        s.state == SendState::Active ==> (s.sent(sent).due(now) <==> has_passed(
            sent,
            now,
            s.send_interval_ms as int,
        )),
        s.state == SendState::Pending || s.state == SendState::Done ==> !s.due(now),
{
}

/// A shutdown marker is told from everything else: it is taken for one, and no diff or
/// acknowledgment is.
pub proof fn shutdown_is_told_apart(
    t: TransportView,
    peer: TransportView,
    diff: Seq<u8>,
    ack: u64,
    throwaway: u64,
    now: Instant,
)
    requires
        peer.sender.state_num < u64::MAX - 1,
        !t.receiver.shutdown_received,
    ensures
        t.after_instruction(
            peer.sender.shutdown_instruction(ack),
            now,
        ).receiver.shutdown_received,
        !t.after_instruction(
            peer.diff_instruction(diff, ack, throwaway),
            now,
        ).receiver.shutdown_received,
        !t.after_instruction(peer.ack_instruction(ack), now).receiver.shutdown_received,
{
}

/// The receiver reads what the sender said.
pub proof fn instruction_is_understood(
    peer: TransportView,
    diff: Seq<u8>,
    ack: u64,
    throwaway: u64,
)
    requires
        peer.sender.state_num < u64::MAX,
    ensures
        parsed(peer.diff_instruction(diff, ack, throwaway)) == (DiffView {
            diff,
            old_num: peer.sender.last_sent_num,
            new_num: (peer.sender.state_num + 1) as u64,
            ack_num: ack,
            throwaway_num: throwaway,
        }),
{
}

/// A sender that is active sends again once its interval has passed, one that shuts down once fifty
/// milliseconds have passed, and any other never.
pub proof fn sends_wait_for_interval(s: SenderView, now: Instant)
    requires
        s.send_interval_ms > 0,
    ensures
        s.state == SendState::Active ==> (s.due(now) <==> now.nanos >= s.last_send_time.nanos
            + s.send_interval_ms * 1_000_000),
        s.state == SendState::Shutdown ==> (s.due(now) <==> now.nanos >= s.last_send_time.nanos
            + 50_000_000),
        s.state == SendState::Pending || s.state == SendState::Done ==> !s.due(now),
{
}

/// The send interval for a round-trip time is half of it, rounded up, between twenty and two hundred
/// and fifty milliseconds.
pub proof fn interval_is_half_the_trip(rtt_ms: u64)
    ensures
        rtt_ms <= 40 ==> SenderView::interval_for(rtt_ms) == 20,
        40 <= rtt_ms <= 500 ==> rtt_ms <= 2 * SenderView::interval_for(rtt_ms) <= rtt_ms + 1,
        rtt_ms >= 499 ==> SenderView::interval_for(rtt_ms) == 250,
{
}

/// Both ends start without a state, and with a sender that may send at once: as if it had sent a
/// second ago.
pub proof fn sessions_start_from_nothing(now: Instant)
    requires
        now.nanos >= 1_000_000_000,
    ensures
        SenderView::fresh(now).state_num == 0,
        SenderView::fresh(now).last_sent_num == 0,
        SenderView::fresh(now).acked_state_num == 0,
        SenderView::fresh(now).throwaway_num == 0,
        SenderView::fresh(now).shutdown_retries == 0,
        SenderView::fresh(now).last_send_time.nanos == now.nanos - 1_000_000_000,
        SenderView::fresh(now).send_interval_ms == 250,
        SenderView::fresh(now).state == SendState::Pending,
        ReceiverView::fresh(now).remote_state_num == 0,
        ReceiverView::fresh(now).acked_state_num == 0,
        !ReceiverView::fresh(now).shutdown_received,
        !ReceiverView::fresh(now).pending_ack,
        ReceiverView::fresh(now).ack_deadline is None,
{
}

/// An acknowledgment is due a tenth of a second after the first packet that it is owed for, and in
/// any case three seconds after the last one.
pub proof fn acks_are_due(r: ReceiverView, arrived: Instant, now: Instant)
    requires
        arrived.nanos + 100_000_000 <= u64::MAX,
    ensures
        r.ack_due(now) <==> (r.ack_deadline is Some && r.ack_deadline.unwrap().nanos <= now.nanos)
            || now.nanos >= r.last_ack_time.nanos + 3_000_000_000,
        r.after_packet(arrived).pending_ack,
        r.after_packet(arrived).last_recv_time == arrived,
        r.pending_ack ==> r.after_packet(arrived).ack_deadline == r.ack_deadline,
        !r.pending_ack ==> r.after_packet(arrived).ack_deadline == Some(
            Instant { nanos: (arrived.nanos + 100_000_000) as u64 },
        ),
        r.after_ack(now).last_ack_time == now,
        !r.after_ack(now).pending_ack,
        r.after_ack(now).ack_deadline is None,
        r.after_ack(now).remote_state_num == r.remote_state_num,
{
}

/// What an instruction leaves out counts as zero, or as nothing; a diff that holds something is to
/// be acknowledged, and one that holds nothing and leads to the number that no state has ends the
/// session.
pub proof fn instructions_are_parsed(inst: InstructionView)
    ensures
        ({
            let d = parsed(inst);
            &&& inst.diff is None ==> d.diff.len() == 0
            &&& inst.diff is Some ==> d.diff == inst.diff.unwrap()
            &&& d.old_num == inst.old_num.unwrap_or(0)
            &&& d.new_num == inst.new_num.unwrap_or(0)
            &&& d.ack_num == inst.ack_num.unwrap_or(0)
            &&& d.throwaway_num == inst.throwaway_num.unwrap_or(0)
            &&& d.is_shutdown() <==> d.diff.len() == 0 && d.new_num == 0xffff_ffff_ffff_ffff
            &&& d.diff.len() > 0 ==> d.owed_ack() == Some(d.new_num)
            &&& d.diff.len() == 0 ==> d.owed_ack() is None
        }),
{
}

/// What arrives raises the numbers that it tells and lowers none, owes an acknowledgment, and is a
/// sample of the round-trip time if it comes within five seconds of the last send. It changes
/// nothing else.
pub proof fn arrival_is_taken(t: TransportView, inst: InstructionView, now: Instant)
    ensures
        ({
            let after = t.after_instruction(inst, now);
            let d = parsed(inst);
            let trip = (now.nanos - t.sender.last_send_time.nanos) / 1_000_000;
            &&& after.sender.acked_state_num == if d.ack_num > t.sender.acked_state_num {
                d.ack_num
            } else {
                t.sender.acked_state_num
            }
            &&& after.receiver.remote_state_num == if d.new_num > t.receiver.remote_state_num {
                d.new_num
            } else {
                t.receiver.remote_state_num
            }
            &&& after.receiver.acked_state_num == if d.ack_num > t.receiver.acked_state_num {
                d.ack_num
            } else {
                t.receiver.acked_state_num
            }
            &&& after.receiver.shutdown_received <==> t.receiver.shutdown_received
                || d.is_shutdown()
            &&& after.receiver.pending_ack
            &&& after.receiver.last_recv_time == now
            &&& after.receiver.last_ack_time == t.receiver.last_ack_time
            &&& after.receiver.state_num == t.receiver.state_num
            &&& after.sender.state_num == t.sender.state_num
            &&& after.sender.last_sent_num == t.sender.last_sent_num
            &&& after.sender.throwaway_num == t.sender.throwaway_num
            &&& after.sender.last_send_time == t.sender.last_send_time
            &&& after.sender.send_interval_ms == t.sender.send_interval_ms
            &&& after.sender.state == t.sender.state
            &&& 0 < trip < 5000 ==> after.connection.rtt == t.connection.rtt.updated(trip as u64)
            &&& !(0 < trip < 5000) ==> after.connection.rtt == t.connection.rtt
            &&& after.connection == (ConnectionView {
                rtt: after.connection.rtt,
                ..t.connection
            })
        }),
{
}

/// Sending a state leads to the next one; sending again, or a shutdown marker, leads nowhere. Each is
/// noted as sent now, and takes with it the acknowledgment that was owed.
pub proof fn sends_are_noted(t: TransportView, now: Instant)
    requires
        t.sender.state_num < u64::MAX,
        t.sender.shutdown_retries < u32::MAX,
    ensures
        t.after_sent(now).sender.state_num == t.sender.state_num + 1,
        t.after_sent(now).sender.last_sent_num == t.sender.state_num + 1,
        t.after_sent(now).sender.last_send_time == now,
        t.after_sent(now).sender.acked_state_num == t.sender.acked_state_num,
        t.after_sent(now).receiver.remote_state_num == t.receiver.remote_state_num,
        t.after_sent(now).connection == t.connection,
        t.after_resent(now).sender.state_num == t.sender.state_num,
        t.after_resent(now).sender.last_sent_num == t.sender.last_sent_num,
        t.after_resent(now).sender.last_send_time == now,
        t.after_resent(now).connection == t.connection,
        t.after_shutdown_sent(now).sender.state_num == t.sender.state_num,
        t.after_shutdown_sent(now).sender.last_send_time == now,
        t.after_shutdown_sent(now).sender.shutdown_retries == t.sender.shutdown_retries + 1,
        t.after_shutdown_sent(now).connection == t.connection,
        !t.after_resent(now).receiver.pending_ack,
        !t.after_shutdown_sent(now).receiver.pending_ack,
{
}

/// Every instruction tells version two of the protocol, what it acknowledges, and the states it leads
/// from and to: a diff from the last state sent to the next one, an opening from none to the first,
/// the end to the number that no state has.
pub proof fn instructions_tell_numbers(
    t: TransportView,
    diff: Seq<u8>,
    ack: u64,
    throwaway: u64,
)
    requires
        t.sender.state_num < u64::MAX,
    ensures
        ({
            let d = t.diff_instruction(diff, ack, throwaway);
            &&& d.protocol_version == Some(2u32)
            &&& d.old_num == Some(t.sender.last_sent_num)
            &&& d.new_num == Some((t.sender.state_num + 1) as u64)
            &&& d.ack_num == Some(ack)
            &&& d.throwaway_num == Some(throwaway)
            &&& d.diff == Some(diff)
        }),
        ({
            let a = t.ack_instruction(ack);
            &&& a.protocol_version == Some(2u32)
            &&& a.old_num == Some(t.sender.last_sent_num)
            &&& a.new_num == Some((t.sender.state_num + 1) as u64)
            &&& a.ack_num == Some(ack)
            &&& a.throwaway_num == Some(t.sender.throwaway_num)
            &&& a.diff == Some(Seq::<u8>::empty())
        }),
        ({
            let h = t.handshake_instruction(diff, ack, throwaway);
            &&& h.protocol_version == Some(2u32)
            &&& h.old_num == Some(0u64)
            &&& h.new_num == Some(1u64)
            &&& h.ack_num == Some(ack)
            &&& h.throwaway_num == Some(throwaway)
            &&& h.diff == Some(diff)
        }),
        ({
            let e = t.sender.shutdown_instruction(ack);
            &&& e.protocol_version == Some(2u32)
            &&& e.old_num == Some(t.sender.state_num)
            &&& e.new_num == Some(0xffff_ffff_ffff_ffffu64)
            &&& e.ack_num == Some(ack)
            &&& e.throwaway_num == Some(t.sender.throwaway_num)
            &&& e.diff is None
        }),
{
}

/// An instruction that is complete changes the numbers; as long as none is, and where there is an
/// error, only the connection changes.
pub proof fn outcomes_are_taken(
    t: TransportView,
    connection: ConnectionView,
    inst: InstructionView,
    e: Seq<char>,
    now: Instant,
)
    ensures
        t.after_outcome(connection, Ok(Some(inst)), now) == (TransportView {
            sender: t.sender,
            receiver: t.receiver,
            connection,
        }).after_instruction(inst, now),
        t.after_outcome(connection, Ok(None), now) == (TransportView {
            sender: t.sender,
            receiver: t.receiver,
            connection,
        }),
        t.after_outcome(connection, Err(e), now) == (TransportView {
            sender: t.sender,
            receiver: t.receiver,
            connection,
        }),
        parsed_outcome(Ok(Some(inst))) == Ok::<Option<DiffView>, Seq<char>>(Some(parsed(inst))),
        parsed_outcome(Ok(None)) == Ok::<Option<DiffView>, Seq<char>>(None),
        parsed_outcome(Err(e)) == Err::<Option<DiffView>, Seq<char>>(e),
{
}

} // verus!
