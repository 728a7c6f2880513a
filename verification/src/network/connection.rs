//! An encrypted connection: what it sends, what it makes of what arrives, and when it changes ports.
//!
//! The sockets are elsewhere: a connection makes packets to be sent and takes packets that arrived.

use crate::bytes;
use crate::bytes::push_be;
use crate::bytes::read_be;
use crate::crypto::nonce;
use crate::crypto::nonce::Nonce;
use crate::crypto::session;
use crate::crypto::session::CryptoError;
use crate::crypto::session::Message;
use crate::crypto::session::Session;
use crate::crypto::session::SessionView;
use crate::network::constants;
use crate::network::constants::max_fragment_payload;
use crate::network::constants::FRAG_HEADER_LEN;
use crate::network::constants::MAX_PORTS_OPEN;
use crate::network::constants::MTU_IPV4;
use crate::network::constants::PORT_HOP_INTERVAL_MS;
use crate::network::fragment;
use crate::network::fragment::AssemblyView;
use crate::network::fragment::Fragment;
use crate::network::fragment::FragmentAssembly;
use crate::network::fragment::FragmentView;
use crate::network::fragment::Fragmenter;
use crate::network::rtt::RttEstimator;
use crate::network::rtt::RttView;
use crate::proto::transport;
use crate::proto::transport::Instruction as TransportInstruction;
use crate::proto::transport::InstructionView;
use crate::text;
use crate::text::push_decimal;
use crate::time;
use crate::time::Instant;
use vstd::prelude::*;

verus! {

/// The timestamp that says that there is none.
pub const NO_TIMESTAMP: u16 = 0xFFFF;

/// The largest packet that is received.
pub const RECEIVE_ROOM: usize = MTU_IPV4 + 64;

/// How long a received timestamp is echoed.
pub const ECHO_TIME_MS: u64 = 1000;

/// A round trip that takes this long, or longer, does not count.
pub const ROUND_TRIP_LIMIT_MS: u64 = 5000;

/// The address of a peer: an IPv4 address in the low 32 bits, or an IPv6 address, and a port.
#[derive(Debug, Clone, Copy, PartialEq, Eq, Structural)]
pub struct Address {
    pub v6: bool,
    pub host: u128,
    pub port: u16,
    pub flow: u32,
    pub scope: u32,
}

/// The milliseconds of a point in time as a 16-bit value, never the one that stands for no timestamp.
pub open spec fn timestamp16_at(now: Instant) -> u16 {
    let ts = (now.nanos / 1_000_000) as int % 0x1_0000;
    if ts == NO_TIMESTAMP {
        0
    } else {
        ts as u16
    }
}

/// The milliseconds of a point in time as a 16-bit value (mod 65536), never 0xFFFF.
pub fn timestamp16(now: Instant) -> (res: u16)
    ensures
        res == timestamp16_at(now),
        res != NO_TIMESTAMP,
{
    let ts: u64 = now.nanos / 1_000_000 % 0x1_0000;
    if ts == 0xFFFF {
        0
    } else {
        ts as u16
    }
}

/// Whether a timestamp and a point in time can be read of two clocks at once: a timestamp is never the
/// one that stands for none.
pub open spec fn read_together(stamp: u16, now: Instant) -> bool {
    stamp != NO_TIMESTAMP
}

/// How far one 16-bit timestamp is after another, where the clock may have wrapped around.
pub open spec fn lag(later: u16, earlier: u16) -> int {
    (later - earlier) % 0x1_0000
}

/// The signed difference of two 16-bit timestamps, where the clock may have wrapped around.
pub open spec fn signed_lag(a: u16, b: u16) -> int {
    if lag(a, b) < 0x8000 {
        lag(a, b)
    } else {
        lag(a, b) - 0x1_0000
    }
}

/// Timestamp diff accounting for 16-bit wrapping.
pub fn timestamp_diff(a: u16, b: u16) -> (res: i32)
    ensures
        res == signed_lag(a, b),
{
    let d: i32 = a as i32 - b as i32;
    if d >= 0x8000 {
        d - 0x1_0000
    } else if d < -0x8000 {
        d + 0x1_0000
    } else {
        d
    }
}

/// The value of the nonce for a message: the direction, then the sequence number.
pub open spec fn nonce_value(server: bool, seq: u64) -> u64 {
    if server {
        0x8000_0000_0000_0000u64 | seq
    } else {
        seq
    }
}

/// What a connection holds.
#[verifier::ext_equal]
pub struct ConnectionView {
    pub session: SessionView,
    pub rtt: RttView,
    /// The id of the next instruction.
    pub next_id: u64,
    pub assembly: AssemblyView,
    pub last_port_choice: Instant,
    pub last_roundtrip_success: Instant,
    pub server: bool,
    pub remote: Option<Address>,
    pub last_heard: Instant,
    pub send_seq: u64,
    pub saved_timestamp: u16,
    pub saved_at: Instant,
}

/// A message for a packet that could not be decrypted.
pub open spec fn decryption_error(e: CryptoError) -> Seq<char> {
    "Decryption error: "@ + session::error_text(e)
}

/// A message for a text without room for two timestamps.
pub open spec fn too_short_error(n: nat) -> Seq<char> {
    "Message too short: "@ + text::decimal(n) + " bytes"@
}

impl ConnectionView {
    /// A connection that has just been made.
    pub open spec fn fresh(server: bool, session: SessionView, now: Instant) -> ConnectionView {
        ConnectionView {
            session,
            rtt: RttView::fresh(),
            next_id: 1,
            assembly: AssemblyView { pending: Map::empty(), finals: Map::empty() },
            last_port_choice: now,
            last_roundtrip_success: now,
            server,
            remote: None,
            last_heard: now,
            send_seq: 0,
            saved_timestamp: 0,
            saved_at: now,
        }
    }

    /// The timestamp that is echoed: the last one received, with the time since then added so that
    /// only the time on the way counts. It is echoed for a second.
    pub open spec fn echo(self, now: Instant) -> u16 {
        let held = time::millis_between(self.saved_at, now);
        if held < ECHO_TIME_MS && self.saved_timestamp != 0 {
            ((self.saved_timestamp + held) % 0x1_0000) as u16
        } else {
            NO_TIMESTAMP
        }
    }

    /// The text that a fragment is sent as: the timestamp of the present, the echo, then the fragment.
    pub open spec fn text_stamped(self, f: FragmentView, stamp: u16, now: Instant) -> Seq<u8> {
        bytes::be_bytes(stamp as nat, 2) + bytes::be_bytes(self.echo(now) as nat, 2) + f.bytes()
    }

    /// The packet that a fragment is sent as, with the timestamp of the present.
    pub open spec fn packet_stamped(self, f: FragmentView, stamp: u16, now: Instant) -> Seq<u8> {
        session::packet(
            self.session.key,
            nonce::nonce_bytes(nonce_value(self.server, self.send_seq)),
            self.text_stamped(f, stamp, now),
        )
    }

    /// The text that a fragment is sent as, where timestamps go by the same clock.
    pub open spec fn text_of(self, f: FragmentView, now: Instant) -> Seq<u8> {
        self.text_stamped(f, timestamp16_at(now), now)
    }

    /// The packet that a fragment is sent as, where timestamps go by the same clock.
    pub open spec fn packet_of(self, f: FragmentView, now: Instant) -> Seq<u8> {
        self.packet_stamped(f, timestamp16_at(now), now)
    }

    /// The bytes of the text that a fragment is sent as.
    pub open spec fn text_len(f: FragmentView) -> nat {
        4 + FRAG_HEADER_LEN as nat + f.payload.len()
    }

    /// Whether the cipher takes a text that long.
    pub open spec fn fits(f: FragmentView) -> bool {
        Self::text_len(f) <= session::max_text()
    }

    /// Whether the key and the sequence numbers last for one more fragment.
    pub open spec fn key_lasts(self, f: FragmentView) -> bool {
        &&& self.session.blocks_encrypted + session::blocks(Self::text_len(f))
            < session::BLOCK_LIMIT
        &&& self.send_seq < u64::MAX
    }

    /// After a fragment was encrypted.
    pub open spec fn after_encrypt(self, f: FragmentView) -> ConnectionView {
        ConnectionView {
            session: SessionView {
                blocks_encrypted: (self.session.blocks_encrypted + session::blocks(
                    Self::text_len(f),
                )) as u64,
                ..self.session
            },
            send_seq: (self.send_seq + 1) as u64,
            ..self
        }
    }

    /// A server learns the address of its client from the first packet.
    pub open spec fn learned(self, peer: Address) -> ConnectionView {
        if self.server && self.remote is None {
            ConnectionView { remote: Some(peer), ..self }
        } else {
            self
        }
    }

    /// After the timestamps of a text: its own is kept to be echoed, and the echo in it is a sample of
    /// the round-trip time. `stamp` is the timestamp of the present.
    pub open spec fn after_timestamps(
        self,
        text: Seq<u8>,
        stamp: u16,
        now: Instant,
    ) -> ConnectionView {
        let sent = bytes::be_value(text.subrange(0, 2)) as u16;
        let echoed = bytes::be_value(text.subrange(2, 4)) as u16;
        let trip = lag(stamp, echoed);
        ConnectionView {
            saved_timestamp: if sent != NO_TIMESTAMP {
                sent
            } else {
                self.saved_timestamp
            },
            saved_at: if sent != NO_TIMESTAMP {
                now
            } else {
                self.saved_at
            },
            rtt: if echoed != NO_TIMESTAMP && 0 < trip < ROUND_TRIP_LIMIT_MS {
                self.rtt.updated(trip as u64)
            } else {
                self.rtt
            },
            ..self
        }
    }

    /// The fragment in a text, or why there is none.
    pub open spec fn fragment_in(text: Seq<u8>) -> Result<FragmentView, Seq<char>> {
        if text.len() < 4 {
            Err(too_short_error(text.len()))
        } else if text.len() < 4 + FRAG_HEADER_LEN {
            Err("Fragment too short"@)
        } else {
            Ok(fragment::fragment_of(text.skip(4)))
        }
    }

    /// After a text was read, with the timestamp of the present.
    pub open spec fn after_text_stamped(
        self,
        text: Seq<u8>,
        stamp: u16,
        now: Instant,
    ) -> ConnectionView {
        if text.len() < 4 {
            self
        } else {
            self.after_timestamps(text, stamp, now)
        }
    }

    /// After a text was read, where timestamps go by the same clock.
    pub open spec fn after_text(self, text: Seq<u8>, now: Instant) -> ConnectionView {
        self.after_text_stamped(text, timestamp16_at(now), now)
    }

    /// After a fragment from a peer: the connection is alive, and a server follows its client to a
    /// new address.
    pub open spec fn after_fragment(
        self,
        f: FragmentView,
        peer: Address,
        now: Instant,
    ) -> ConnectionView {
        ConnectionView {
            remote: if self.server {
                Some(peer)
            } else {
                self.remote
            },
            last_heard: now,
            last_roundtrip_success: now,
            assembly: self.assembly.after(f),
            ..self
        }
    }

    /// After a packet with the given text arrived from a peer, with the timestamp of the present.
    pub open spec fn after_packet_stamped(
        self,
        text: Seq<u8>,
        peer: Address,
        stamp: u16,
        now: Instant,
    ) -> ConnectionView {
        let read = self.learned(peer).after_text_stamped(text, stamp, now);
        match Self::fragment_in(text) {
            Ok(f) => read.after_fragment(f, peer, now),
            Err(_) => read,
        }
    }

    /// After a packet with the given text arrived from a peer, where timestamps go by the same clock.
    pub open spec fn after_packet(
        self,
        text: Seq<u8>,
        peer: Address,
        now: Instant,
    ) -> ConnectionView {
        self.after_packet_stamped(text, peer, timestamp16_at(now), now)
    }

    /// What a packet with the given text gives.
    pub open spec fn outcome(self, text: Seq<u8>) -> Result<Option<InstructionView>, Seq<char>> {
        match Self::fragment_in(text) {
            Ok(f) => self.assembly.outcome(f),
            Err(e) => Err(e),
        }
    }

    /// Whether it is time for a new port: a client chose its port and heard from the server more
    /// than ten seconds ago.
    pub open spec fn hops(self, now: Instant) -> bool {
        &&& !self.server
        &&& time::nanos_between(self.last_port_choice, now) > PORT_HOP_INTERVAL_MS * 1_000_000
        &&& time::nanos_between(self.last_roundtrip_success, now) > PORT_HOP_INTERVAL_MS * 1_000_000
    }
}

/// What an assembly or a connection gave.
pub open spec fn outcome_view(res: Result<Option<TransportInstruction>, String>) -> Result<
    Option<InstructionView>,
    Seq<char>,
> {
    match res {
        Ok(Some(inst)) => Ok(Some(inst@)),
        Ok(None) => Ok(None),
        Err(e) => Err(e@),
    }
}

/// What reading a fragment gave.
pub open spec fn fragment_view(res: Result<Fragment, String>) -> Result<FragmentView, Seq<char>> {
    match res {
        Ok(f) => Ok(f@),
        Err(e) => Err(e@),
    }
}

/// What sending an instruction gives: its fragments and where to send them. Without a remote address
/// nothing is sent, nor is what cannot be compressed.
pub open spec fn dispatched(
    before: ConnectionView,
    inst: InstructionView,
    res: Result<(Address, Vec<Fragment>), String>,
    after: ConnectionView,
) -> bool {
    match res {
        Ok((remote, frags)) => {
            &&& before.remote == Some(remote)
            &&& fragment::fragments_carry(
                fragment::fragments_view(frags@),
                before.next_id,
                inst,
                constants::payload_room(MTU_IPV4 as int) as nat,
            )
            &&& after == (ConnectionView {
                next_id: if before.next_id < u64::MAX {
                    (before.next_id + 1) as u64
                } else {
                    0
                },
                ..before
            })
        },
        Err(e) => after == before && match before.remote {
            Some(_) => fragment::compression(inst) == Err::<Seq<u8>, Seq<char>>(e@),
            None => e@ == "No remote address"@,
        },
    }
}

/// Encrypted connection with fragmentation and RTT estimation.
pub struct Connection {
    session: Session,
    rtt: RttEstimator,
    fragger: Fragmenter,
    assembler: FragmentAssembly,
    last_port_choice: Instant,
    last_roundtrip_success: Instant,
    server: bool,
    remote_addr: Option<Address>,
    last_heard: Instant,
    /// Send nonce sequence counter. Each send increments this.
    send_seq: u64,
    /// Last received timestamp for RTT calculation.
    saved_timestamp: u16,
    /// When the saved timestamp was received.
    saved_timestamp_received_at: Instant,
}

impl View for Connection {
    type V = ConnectionView;

    closed spec fn view(&self) -> ConnectionView {
        ConnectionView {
            session: self.session@,
            rtt: self.rtt@,
            next_id: self.fragger@,
            assembly: self.assembler@,
            last_port_choice: self.last_port_choice,
            last_roundtrip_success: self.last_roundtrip_success,
            server: self.server,
            remote: self.remote_addr,
            last_heard: self.last_heard,
            send_seq: self.send_seq,
            saved_timestamp: self.saved_timestamp,
            saved_at: self.saved_timestamp_received_at,
        }
    }
}

impl Connection {
    /// The estimates of the round-trip time are within bounds.
    pub open spec fn wf(&self) -> bool {
        self@.rtt.bounded()
    }

    /// A connection made at a given time.
    fn made_at(server: bool, session: Session, now: Instant) -> (res: Self)
        ensures
            res.wf(),
            res@ == ConnectionView::fresh(server, session@, now),
    {
        Connection {
            session,
            rtt: RttEstimator::new(),
            fragger: Fragmenter::new(),
            assembler: FragmentAssembly::new(),
            last_port_choice: now,
            last_roundtrip_success: now,
            server,
            remote_addr: None,
            last_heard: now,
            send_seq: 0,
            saved_timestamp: 0,
            saved_timestamp_received_at: now,
        }
    }

    /// A server-side connection made at a given time.
    pub fn new_server_at(session: Session, now: Instant) -> (res: Self)
        ensures
            res.wf(),
            res@ == ConnectionView::fresh(true, session@, now),
    {
        Self::made_at(true, session, now)
    }

    /// A server-side connection (single socket, no port hopping).
    pub fn new_server(session: Session) -> (res: Self)
        ensures
            res.wf(),
            exists|now: Instant|
                res@ == #[trigger] ConnectionView::fresh(true, session@, now),
    {
        let now = Instant::now();
        Self::new_server_at(session, now)
    }

    /// A client-side connection made at a given time.
    pub fn new_client_at(session: Session, now: Instant) -> (res: Self)
        ensures
            res.wf(),
            res@ == ConnectionView::fresh(false, session@, now),
    {
        Self::made_at(false, session, now)
    }

    /// A client-side connection.
    pub fn new_client(session: Session) -> (res: Self)
        ensures
            res.wf(),
            exists|now: Instant|
                res@ == #[trigger] ConnectionView::fresh(false, session@, now),
    {
        let now = Instant::now();
        Self::new_client_at(session, now)
    }

    /// Sets the remote address.
    pub fn set_remote_addr(&mut self, addr: Address)
        ensures
            final(self)@ == (ConnectionView { remote: Some(addr), ..old(self)@ }),
    {
        self.remote_addr = Some(addr);
    }

    /// Whether the remote address is known.
    pub fn has_remote(&self) -> (res: bool)
        ensures
            res == self@.remote is Some,
    {
        self.remote_addr.is_some()
    }

    /// The remote address.
    pub fn remote_addr(&self) -> (res: Option<Address>)
        ensures
            res == self@.remote,
    {
        self.remote_addr
    }

    /// The estimator of the round-trip time.
    pub fn rtt(&self) -> (res: &RttEstimator)
        ensures
            res@ == self@.rtt,
    {
        &self.rtt
    }

    /// The estimator of the round-trip time, to be changed.
    pub fn rtt_mut(&mut self) -> (res: &mut RttEstimator)
        ensures
            res@ == old(self)@.rtt,
            final(self)@ == (ConnectionView { rtt: final(res)@, ..old(self)@ }),
    {
        &mut self.rtt
    }

    /// Records a sample of the round-trip time.
    pub fn record_rtt(&mut self, rtt_ms: u64)
        requires
            old(self).wf(),
        ensures
            final(self).wf(),
            final(self)@ == (ConnectionView { rtt: old(self)@.rtt.updated(rtt_ms), ..old(self)@ }),
    {
        self.rtt.update(rtt_ms);
    }

    /// The current send sequence number.
    pub fn send_seq(&self) -> (res: u64)
        ensures
            res == self@.send_seq,
    {
        self.send_seq
    }

    /// The nanoseconds since something was last heard.
    pub fn time_since_last_heard(&self, now: Instant) -> (res: u64)
        ensures
            res == time::nanos_between(self@.last_heard, now),
    {
        now.nanos.saturating_sub(self.last_heard.nanos)
    }

    /// Whether to change ports (client only).
    pub fn should_hop_port(&self, now: Instant) -> (res: bool)
        ensures
            res == self@.hops(now),
    {
        !self.server && now.nanos.saturating_sub(self.last_port_choice.nanos)
            > PORT_HOP_INTERVAL_MS * 1_000_000 && now.nanos.saturating_sub(
            self.last_roundtrip_success.nanos,
        ) > PORT_HOP_INTERVAL_MS * 1_000_000
    }

    /// Marks that a new port was chosen.
    pub fn hop_port(&mut self, now: Instant)
        ensures
            final(self)@ == (ConnectionView { last_port_choice: now, ..old(self)@ }),
    {
        self.last_port_choice = now;
    }

    /// The fragments of an instruction, and where to send them.
    ///
    /// Each fragment becomes a packet when it is encrypted. Without a remote address nothing is sent.
    pub fn send(&mut self, inst: &TransportInstruction) -> (res: Result<
        (Address, Vec<Fragment>),
        String,
    >)
        ensures
            dispatched(old(self)@, inst@, res, final(self)@),
    {
        match self.remote_addr {
            Some(remote) => {
                match self.fragger.make_fragments(inst, max_fragment_payload(MTU_IPV4)) {
                    Ok(frags) => Ok((remote, frags)),
                    Err(e) => Err(e),
                }
            },
            None => Err("No remote address".to_owned()),
        }
    }

    /// Encrypts a fragment at a given time, with the timestamp of that time.
    pub fn encrypt_fragment_stamped(&mut self, frag: &Fragment, stamp: u16, now: Instant) -> (res:
        Result<Vec<u8>, String>)
        ensures
            match res {
                Ok(wire) => {
                    &&& ConnectionView::fits(frag@)
                    &&& old(self)@.key_lasts(frag@)
                    &&& wire@ == old(self)@.packet_stamped(frag@, stamp, now)
                    &&& wire@.len() == 8 + ConnectionView::text_len(frag@) + session::ADDED_BYTES
                    &&& final(self)@ == old(self)@.after_encrypt(frag@)
                },
                Err(e) => {
                    &&& final(self)@ == old(self)@
                    &&& if ConnectionView::fits(frag@) {
                        !old(self)@.key_lasts(frag@) && e@ == "Session key must be rotated"@
                    } else {
                        e@ == "Fragment too long"@
                    }
                },
            },
    {
        if frag.payload.len() > session::text_limit() - 4 - FRAG_HEADER_LEN {
            return Err("Fragment too long".to_owned());
        }
        let blocks: u64 = (frag.payload.len() as u64 + 14 + 15) / 16;
        if !self.session.lasts(blocks) || self.send_seq == u64::MAX {
            return Err("Session key must be rotated".to_owned());
        }
        let held: u64 = now.millis_since(self.saved_timestamp_received_at);
        let echo: u16 = if held < ECHO_TIME_MS && self.saved_timestamp != 0 {
            ((self.saved_timestamp as u64 + held) % 0x1_0000) as u16
        } else {
            NO_TIMESTAMP
        };
        let frag_bytes = frag.to_bytes();
        let mut plaintext: Vec<u8> = Vec::new();
        push_be(&mut plaintext, stamp as u64, 2);
        push_be(&mut plaintext, echo as u64, 2);
        plaintext.extend_from_slice(frag_bytes.as_slice());
        proof {
            assert(plaintext@ =~= self@.text_stamped(frag@, stamp, now));
            bytes::be_bytes_len(stamp as nat, 2);
            bytes::be_bytes_len(echo as nat, 2);
            frag@.bytes_len();
            assert(plaintext@.len() == ConnectionView::text_len(frag@));
        }
        let nonce_val: u64 = if self.server {
            0x8000_0000_0000_0000u64 | self.send_seq
        } else {
            self.send_seq
        };
        self.send_seq = self.send_seq + 1;
        let msg = Message::new(Nonce::from_val(nonce_val), plaintext);
        Ok(self.session.encrypt(&msg))
    }

    /// Encrypts a fragment at a given time.
    pub fn encrypt_fragment_at(&mut self, frag: &Fragment, now: Instant) -> (res: Result<
        Vec<u8>,
        String,
    >)
        ensures
            match res {
                Ok(wire) => {
                    &&& ConnectionView::fits(frag@)
                    &&& old(self)@.key_lasts(frag@)
                    &&& wire@ == old(self)@.packet_of(frag@, now)
                    &&& wire@.len() == 8 + ConnectionView::text_len(frag@) + session::ADDED_BYTES
                    &&& final(self)@ == old(self)@.after_encrypt(frag@)
                },
                Err(e) => {
                    &&& final(self)@ == old(self)@
                    &&& if ConnectionView::fits(frag@) {
                        !old(self)@.key_lasts(frag@) && e@ == "Session key must be rotated"@
                    } else {
                        e@ == "Fragment too long"@
                    }
                },
            },
    {
        self.encrypt_fragment_stamped(frag, timestamp16(now), now)
    }

    /// Encrypts a fragment.
    ///
    /// The text of the packet is a timestamp, the echo of a timestamp, and the fragment.
    pub fn encrypt_fragment(&mut self, frag: &Fragment) -> (res: Result<Vec<u8>, String>)
        ensures
            match res {
                Ok(wire) => {
                    &&& ConnectionView::fits(frag@)
                    &&& old(self)@.key_lasts(frag@)
                    &&& exists|stamp: u16, now: Instant|
                        wire@ == #[trigger] old(self)@.packet_stamped(frag@, stamp, now)
                    &&& wire@.len() == 8 + ConnectionView::text_len(frag@) + session::ADDED_BYTES
                    &&& final(self)@ == old(self)@.after_encrypt(frag@)
                },
                Err(e) => {
                    &&& final(self)@ == old(self)@
                    &&& if ConnectionView::fits(frag@) {
                        !old(self)@.key_lasts(frag@) && e@ == "Session key must be rotated"@
                    } else {
                        e@ == "Fragment too long"@
                    }
                },
            },
    {
        let stamp: u16 = timestamp16(Instant::wall_clock());
        self.encrypt_fragment_stamped(frag, stamp, Instant::now())
    }

    /// Reads the text of a packet: its timestamps, then the fragment. `stamp` is the timestamp of the
    /// present.
    fn read_text_stamped(&mut self, text: &Vec<u8>, stamp: u16, now: Instant) -> (res: Result<
        Fragment,
        String,
    >)
        requires
            old(self).wf(),
        ensures
            final(self).wf(),
            final(self)@ == old(self)@.after_text_stamped(text@, stamp, now),
            fragment_view(res) == ConnectionView::fragment_in(text@),
    {
        if text.len() < 4 {
            let mut e = "Message too short: ".to_owned();
            push_decimal(&mut e, text.len() as u64);
            e.push_str(" bytes");
            return Err(e);
        }
        proof {
            bytes::pow256_values();
            bytes::be_bytes_of_value(text@.subrange(0, 2));
            bytes::be_bytes_of_value(text@.subrange(2, 4));
        }
        let sent: u16 = read_be(text.as_slice(), 0, 2) as u16;
        let echoed: u16 = read_be(text.as_slice(), 2, 2) as u16;
        if sent != NO_TIMESTAMP {
            self.saved_timestamp = sent;
            self.saved_timestamp_received_at = now;
        }
        if echoed != NO_TIMESTAMP {
            let trip: u16 = stamp.wrapping_sub(echoed);
            if trip > 0 && (trip as u64) < ROUND_TRIP_LIMIT_MS {
                self.rtt.update(trip as u64);
            }
        }
        let (_, body) = text.as_slice().split_at(4);
        assert(body@ =~= text@.skip(4));
        Fragment::from_bytes(body)
    }

    /// Reads the text of a packet: its timestamps, then the fragment.
    pub fn read_text(&mut self, text: &Vec<u8>, now: Instant) -> (res: Result<Fragment, String>)
        requires
            old(self).wf(),
        ensures
            final(self).wf(),
            final(self)@ == old(self)@.after_text(text@, now),
            fragment_view(res) == ConnectionView::fragment_in(text@),
    {
        self.read_text_stamped(text, timestamp16(now), now)
    }

    /// Takes the text of a packet from a peer. Gives the instruction that it completes, if any.
    pub fn take_text(&mut self, text: &Vec<u8>, peer: Address, now: Instant) -> (res: Result<
        Option<TransportInstruction>,
        String,
    >)
        requires
            old(self).wf(),
        ensures
            final(self).wf(),
            final(self)@ == old(self)@.after_packet(text@, peer, now),
            outcome_view(res) == old(self)@.outcome(text@),
    {
        self.take_text_stamped(text, peer, timestamp16(now), now)
    }

    /// Takes the text of a packet from a peer, with the timestamp of the present.
    fn take_text_stamped(&mut self, text: &Vec<u8>, peer: Address, stamp: u16, now: Instant) -> (res:
        Result<Option<TransportInstruction>, String>)
        requires
            old(self).wf(),
        ensures
            final(self).wf(),
            final(self)@ == old(self)@.after_packet_stamped(text@, peer, stamp, now),
            outcome_view(res) == old(self)@.outcome(text@),
    {
        self.learn(peer);
        match self.read_text_stamped(text, stamp, now) {
            Ok(frag) => {
                self.last_heard = now;
                self.last_roundtrip_success = now;
                if self.server {
                    self.remote_addr = Some(peer);
                }
                self.assembler.add_fragment(frag)
            },
            Err(e) => Err(e),
        }
    }

    /// A server learns the address of its client from the first packet.
    fn learn(&mut self, peer: Address)
        ensures
            final(self)@ == old(self)@.learned(peer),
    {
        if self.server && self.remote_addr.is_none() {
            self.remote_addr = Some(peer);
        }
    }

    /// Takes a packet that arrived from a peer at a given time.
    ///
    /// What its text says goes to [`Connection::take_text`]. A packet that cannot be decrypted is
    /// refused, and an empty one says nothing.
    pub fn recv_at(&mut self, data: &[u8], peer: Address, now: Instant) -> (res: Result<
        Option<TransportInstruction>,
        String,
    >)
        requires
            old(self).wf(),
            data@.len() <= RECEIVE_ROOM,
        ensures
            final(self).wf(),
            data@.len() == 0 ==> final(self)@ == old(self)@ && outcome_view(res) == Ok::<
                Option<InstructionView>,
                Seq<char>,
            >(None),
            data@.len() > 0 ==> exists|msg: Result<Message, CryptoError>| #[trigger]
                session::opened(old(self)@.session.key, data@, msg) && match msg {
                    Ok(m) => {
                        &&& final(self)@ == old(self)@.after_packet(m.text@, peer, now)
                        &&& outcome_view(res) == old(self)@.outcome(m.text@)
                    },
                    Err(e) => {
                        &&& final(self)@ == old(self)@.learned(peer)
                        &&& outcome_view(res) == Err::<Option<InstructionView>, Seq<char>>(
                            decryption_error(e),
                        )
                    },
                },
    {
        self.recv_stamped(data, peer, timestamp16(now), now)
    }

    /// Takes a packet that arrived from a peer at a given time, with the timestamp of that time.
    pub fn recv_stamped(&mut self, data: &[u8], peer: Address, stamp: u16, now: Instant) -> (res:
        Result<Option<TransportInstruction>, String>)
        requires
            old(self).wf(),
            data@.len() <= RECEIVE_ROOM,
        ensures
            final(self).wf(),
            data@.len() == 0 ==> final(self)@ == old(self)@ && outcome_view(res) == Ok::<
                Option<InstructionView>,
                Seq<char>,
            >(None),
            data@.len() > 0 ==> exists|msg: Result<Message, CryptoError>| #[trigger]
                session::opened(old(self)@.session.key, data@, msg) && match msg {
                    Ok(m) => {
                        &&& final(self)@ == old(self)@.after_packet_stamped(m.text@, peer, stamp, now)
                        &&& outcome_view(res) == old(self)@.outcome(m.text@)
                    },
                    Err(e) => {
                        &&& final(self)@ == old(self)@.learned(peer)
                        &&& outcome_view(res) == Err::<Option<InstructionView>, Seq<char>>(
                            decryption_error(e),
                        )
                    },
                },
    {
        if data.len() == 0 {
            return Ok(None);
        }
        let msg = self.session.decrypt(data);
        let ghost opened = msg;
        assert(session::opened(old(self)@.session.key, data@, opened));
        match msg {
            Ok(msg) => self.take_text_stamped(&msg.text, peer, stamp, now),
            Err(e) => {
                self.learn(peer);
                let mut s = "Decryption error: ".to_owned();
                s.push_str(e.message().as_str());
                assert(s@ == decryption_error(e));
                Err(s)
            },
        }
    }

    /// Takes a packet that arrived from a peer.
    pub fn recv(&mut self, data: &[u8], peer: Address) -> (res: Result<
        Option<TransportInstruction>,
        String,
    >)
        requires
            old(self).wf(),
            data@.len() <= RECEIVE_ROOM,
        ensures
            final(self).wf(),
            data@.len() == 0 ==> final(self)@ == old(self)@ && outcome_view(res) == Ok::<
                Option<InstructionView>,
                Seq<char>,
            >(None),
            data@.len() > 0 ==> exists|
                msg: Result<Message, CryptoError>,
                stamp: u16,
                now: Instant,
            |
                #![trigger session::opened(old(self)@.session.key, data@, msg), read_together(stamp, now)]
                read_together(stamp, now) && session::opened(old(self)@.session.key, data@, msg)
                    && match msg {
                    Ok(m) => {
                        &&& final(self)@ == old(self)@.after_packet_stamped(
                            m.text@,
                            peer,
                            stamp,
                            now,
                        )
                        &&& outcome_view(res) == old(self)@.outcome(m.text@)
                    },
                    Err(e) => {
                        &&& final(self)@ == old(self)@.learned(peer)
                        &&& outcome_view(res) == Err::<Option<InstructionView>, Seq<char>>(
                            decryption_error(e),
                        )
                    },
                },
    {
        let stamp: u16 = timestamp16(Instant::wall_clock());
        let now = Instant::now();
        assert(read_together(stamp, now));
        self.recv_stamped(data, peer, stamp, now)
    }
}

/// Keeps only the newest sockets: as many as may be open at once.
pub fn prune_sockets<T>(sockets: &mut Vec<T>)
    ensures
        final(sockets)@ == if old(sockets)@.len() > MAX_PORTS_OPEN {
            old(sockets)@.skip(old(sockets)@.len() - MAX_PORTS_OPEN)
        } else {
            old(sockets)@
        },
{
    while sockets.len() > MAX_PORTS_OPEN
        invariant
            sockets@.len() <= old(sockets)@.len(),
            sockets@.len() >= MAX_PORTS_OPEN || sockets@.len() == old(sockets)@.len(),
            sockets@ == old(sockets)@.skip(old(sockets)@.len() - sockets@.len()),
        decreases sockets@.len(),
    {
        let ghost before = sockets@;
        sockets.remove(0);
        assert(sockets@ =~= before.skip(1));
    }
}

/// No nonce is used twice: the value of a nonce tells the direction and the sequence number.
pub proof fn nonces_never_repeat(server_a: bool, seq_a: u64, server_b: bool, seq_b: u64)
    requires
        seq_a < 0x8000_0000_0000_0000,
        seq_b < 0x8000_0000_0000_0000,
        nonce::nonce_bytes(nonce_value(server_a, seq_a)) == nonce::nonce_bytes(
            nonce_value(server_b, seq_b),
        ),
    ensures
        server_a == server_b,
        seq_a == seq_b,
{
    nonce::nonce_injective(nonce_value(server_a, seq_a), nonce_value(server_b, seq_b));
    assert(forall|seq: u64|
        seq < 0x8000_0000_0000_0000u64 ==> #[trigger] (0x8000_0000_0000_0000u64 | seq)
            == 0x8000_0000_0000_0000u64 + seq) by (bit_vector);
}

/// Two packets of one sender differ in their first eight bytes.
pub proof fn packets_differ(
    c: ConnectionView,
    d: ConnectionView,
    f: FragmentView,
    g: FragmentView,
    sent: Instant,
    sent_too: Instant,
)
    requires
        c.server == d.server,
        c.send_seq < d.send_seq < 0x8000_0000_0000_0000,
    ensures
        c.packet_of(f, sent).take(8) != d.packet_of(g, sent_too).take(8),
{
    let p = c.packet_of(f, sent);
    let q = d.packet_of(g, sent_too);
    session::packet_carries_nonce(
        c.session.key,
        nonce_value(c.server, c.send_seq),
        c.text_of(f, sent),
    );
    session::packet_carries_nonce(
        d.session.key,
        nonce_value(d.server, d.send_seq),
        d.text_of(g, sent_too),
    );
    if p.take(8) == q.take(8) {
        nonces_never_repeat(c.server, c.send_seq, d.server, d.send_seq);
    }
}

/// What one side sends, the other reads: a packet opens under the same key, its text holds the
/// fragment that was sent, and the receiver keeps the sender's timestamp.
pub proof fn packet_carries_fragment(
    sender: ConnectionView,
    receiver: ConnectionView,
    f: FragmentView,
    sent: Instant,
    received: Instant,
    data: Seq<u8>,
    msg: Result<Message, CryptoError>,
)
    requires
        sender.session.key == receiver.session.key,
        f.fragment_num < 0x8000,
        data == sender.packet_of(f, sent),
        data.len() == 8 + ConnectionView::text_len(f) + session::ADDED_BYTES,
        session::opened(receiver.session.key, data, msg),
    ensures
        msg matches Ok(m) && {
            &&& m.text@ == sender.text_of(f, sent)
            &&& ConnectionView::fragment_in(m.text@) == Ok::<FragmentView, Seq<char>>(f)
            &&& receiver.after_text(m.text@, received).saved_timestamp == timestamp16_at(sent)
            &&& receiver.after_text(m.text@, received).saved_at == received
        },
{
    let text = sender.text_of(f, sent);
    bytes::be_bytes_len(timestamp16_at(sent) as nat, 2);
    bytes::be_bytes_len(sender.echo(sent) as nat, 2);
    fragment::fragment_roundtrip(f);
    session::decrypt_undoes_encrypt(
        sender.session.key,
        nonce_value(sender.server, sender.send_seq),
        text,
        data,
        msg,
    );
    assert(text.skip(4) =~= f.bytes());
    bytes::pow256_values();
    bytes::be_value_of_bytes(timestamp16_at(sent) as nat, 2);
    assert(text.subrange(0, 2) =~= bytes::be_bytes(timestamp16_at(sent) as nat, 2));
}

/// Roaming: a server answers to the address from which the last packet of its client came, whatever
/// address it knew before.
pub proof fn server_follows_client(
    client: ConnectionView,
    server: ConnectionView,
    f: FragmentView,
    sent: Instant,
    received: Instant,
    data: Seq<u8>,
    msg: Result<Message, CryptoError>,
    peer: Address,
)
    requires
        server.server,
        client.session.key == server.session.key,
        f.fragment_num < 0x8000,
        data == client.packet_of(f, sent),
        data.len() == 8 + ConnectionView::text_len(f) + session::ADDED_BYTES,
        session::opened(server.session.key, data, msg),
    ensures
        msg matches Ok(m) && server.after_packet(m.text@, peer, received).remote == Some(peer),
{
    packet_carries_fragment(client, server, f, sent, received, data, msg);
}

/// What cannot be decrypted does not change where a known remote is, and nothing that arrives changes
/// where a client sends to.
pub proof fn strangers_do_not_redirect(
    c: ConnectionView,
    text: Seq<u8>,
    peer: Address,
    now: Instant,
)
    ensures
        c.remote is Some ==> c.learned(peer) == c,
        !c.server ==> c.learned(peer) == c && c.after_packet(text, peer, now).remote == c.remote,
{
}

/// What one side sends arrives at the other: where the fragments of an instruction that have arrived
/// are those with the numbers `have`, the packet with the last missing one gives the instruction.
pub proof fn instruction_arrives(
    sender: ConnectionView,
    receiver: ConnectionView,
    frags: Seq<FragmentView>,
    id: u64,
    inst: InstructionView,
    have: Set<u16>,
    k: u16,
    sent: Instant,
    data: Seq<u8>,
    msg: Result<Message, CryptoError>,
)
    requires
        sender.session.key == receiver.session.key,
        fragment::fragments_carry(
            frags,
            id,
            inst,
            constants::payload_room(MTU_IPV4 as int) as nat,
        ),
        transport::countable(inst.diff),
        transport::countable(inst.chaff),
        k < frags.len() <= 0x8000,
        fragment::holds(
            receiver.assembly,
            id,
            fragment::payload_of(
                fragment::compressed_bytes(inst),
                fragment::state_of(inst),
                constants::payload_room(MTU_IPV4 as int) as nat,
            ),
            constants::payload_room(MTU_IPV4 as int) as nat,
            have,
        ),
        !have.contains(k),
        have.insert(k) == fragment::numbers_below(frags.len()),
        data == sender.packet_of(frags[k as int], sent),
        data.len() == 8 + ConnectionView::text_len(frags[k as int]) + session::ADDED_BYTES,
        session::opened(receiver.session.key, data, msg),
    ensures
        msg matches Ok(m) && receiver.outcome(m.text@) == Ok::<
            Option<InstructionView>,
            Seq<char>,
        >(Some(inst)),
{
    let max = constants::payload_room(MTU_IPV4 as int) as nat;
    fragment::payload_carries(frags, id, inst, max);
    assert(frags[k as int].fragment_num == k);
    packet_carries_fragment(sender, receiver, frags[k as int], sent, sent, data, msg);
    fragment::assembly_gives_back(receiver.assembly, frags, id, inst, max, have, k);
}

/// The time that the peer held a timestamp before it echoed it does not count: the sample is the
/// time between sending and receiving, less the time it was held.
pub proof fn held_time_does_not_count(
    peer: ConnectionView,
    sent: Instant,
    echoed: Instant,
    received: Instant,
)
    requires
        peer.saved_timestamp == timestamp16_at(sent),
        (sent.nanos / 1_000_000) as int % 0x1_0000 != 0,
        (sent.nanos / 1_000_000) as int % 0x1_0000 != NO_TIMESTAMP,
        (received.nanos / 1_000_000) as int % 0x1_0000 != NO_TIMESTAMP,
        time::millis_between(peer.saved_at, echoed) < ECHO_TIME_MS,
    ensures
        lag(timestamp16_at(received), peer.echo(echoed)) == ((received.nanos / 1_000_000) - (
        sent.nanos / 1_000_000) - time::millis_between(peer.saved_at, echoed)) % 0x1_0000,
{
}

/// The difference of timestamps changes its sign with their order, unless they are half the range
/// apart.
pub proof fn timestamp_diff_antisymmetric(a: u16, b: u16)
    requires
        lag(a, b) != 0x8000,
    ensures
        signed_lag(a, b) == -signed_lag(b, a),
{
}

/// A client does not change ports within ten seconds of having changed them or of having heard from
/// the server, and a server never does.
pub proof fn hops_are_rare(c: ConnectionView, now: Instant)
    ensures
        c.hops(now) ==> !c.server,
        c.hops(now) ==> time::millis_between(c.last_port_choice, now) >= PORT_HOP_INTERVAL_MS,
        c.hops(now) ==> time::millis_between(c.last_roundtrip_success, now)
            >= PORT_HOP_INTERVAL_MS,
        !(ConnectionView { last_port_choice: now, ..c }).hops(now),
{
}

/// A timestamp is the milliseconds of the clock without its higher bits, and zero where that would be
/// the number that stands for none.
pub proof fn timestamps_count_millis(now: Instant)
    ensures
        ({
            let millis = now.nanos as int / 1_000_000;
            let stamp = timestamp16_at(now) as int;
            &&& millis % 65536 != 65535 ==> stamp == millis % 65536
            &&& millis % 65536 == 65535 ==> stamp == 0
        }),
{
}

/// The difference of two timestamps is the smallest one that the sixteen bits allow, with its sign.
pub proof fn timestamps_differ_by_little(a: u16, b: u16)
    ensures
        -32768 <= signed_lag(a, b) < 32768,
        (a - b - signed_lag(a, b)) % 65536 == 0,
        a == b ==> signed_lag(a, b) == 0,
{
}

/// The top bit of a nonce tells who sent it, the others count.
pub proof fn nonces_tell_direction(seq: u64)
    requires
        seq < 0x8000_0000_0000_0000,
    ensures
        nonce_value(false, seq) == seq,
        nonce_value(true, seq) == 0x8000_0000_0000_0000 + seq,
{
    assert(seq < 0x8000_0000_0000_0000u64 ==> (0x8000_0000_0000_0000u64 | seq)
        == 0x8000_0000_0000_0000u64 + seq) by (bit_vector);
}

/// The last timestamp of the peer is echoed for a second, with the milliseconds since it came added;
/// after that, or where there is none, no timestamp is.
pub proof fn echo_lasts_a_second(c: ConnectionView, now: Instant)
    requires
        c.saved_at.nanos <= now.nanos,
    ensures
        ({
            let held = (now.nanos - c.saved_at.nanos) / 1_000_000;
            &&& held < 1000 && c.saved_timestamp != 0 ==> c.echo(now) == (c.saved_timestamp + held)
                % 65536
            &&& held >= 1000 || c.saved_timestamp == 0 ==> c.echo(now) == 0xffff
        }),
{
}

/// The text of a packet: two bytes of timestamp, two bytes of echo, eight of id, two of flag and
/// number, the higher bytes first, and the payload.
pub proof fn text_layout(c: ConnectionView, f: FragmentView, stamp: u16, now: Instant)
    ensures
        ({
            let t = c.text_stamped(f, stamp, now);
            &&& t.len() == 14 + f.payload.len()
            &&& 256 * t[0] + t[1] == stamp
            &&& 256 * t[2] + t[3] == c.echo(now)
            &&& bytes::be_value(t.subrange(4, 12)) == f.id
            &&& t[12] >= 128 <==> f.final_flag
            &&& 256 * (t[12] % 128) + t[13] == f.fragment_num % 0x8000
            &&& t.skip(14) == f.payload
        }),
{
    bytes::pow256_values();
    bytes::be_value_of_bytes(stamp as nat, 2);
    bytes::be_value_of_bytes(c.echo(now) as nat, 2);
    bytes::be_value_of_bytes(f.id as nat, 8);
    bytes::be_value_of_bytes(f.combined(), 2);
    let a = bytes::be_bytes(stamp as nat, 2);
    let b = bytes::be_bytes(c.echo(now) as nat, 2);
    let d = bytes::be_bytes(f.id as nat, 8);
    let e = bytes::be_bytes(f.combined(), 2);
    two_bytes(a);
    two_bytes(b);
    two_bytes(e);
    let t = c.text_stamped(f, stamp, now);
    assert(t.subrange(4, 12) =~= d);
    assert(t[12] == e[0] && t[13] == e[1]);
    assert(t.skip(14) =~= f.payload);
}

proof fn two_bytes(s: Seq<u8>)
    requires
        s.len() == 2,
    ensures
        bytes::be_value(s) == 256 * s[0] + s[1],
{
    reveal_with_fuel(bytes::be_value, 3);
    assert(s.drop_last().last() == s[0]);
}

/// The timestamp in a text is kept to be echoed, unless it is none; the echo in it, unless it is none,
/// is a sample of the round-trip time if it is of the last five seconds.
pub proof fn timestamps_are_taken(c: ConnectionView, text: Seq<u8>, stamp: u16, now: Instant)
    requires
        text.len() >= 4,
    ensures
        ({
            let after = c.after_text_stamped(text, stamp, now);
            let theirs = 256 * text[0] + text[1];
            let echoed = 256 * text[2] + text[3];
            let trip = (stamp - echoed) % 65536;
            &&& theirs != 0xffff ==> after.saved_timestamp == theirs && after.saved_at == now
            &&& theirs == 0xffff ==> after.saved_timestamp == c.saved_timestamp && after.saved_at
                == c.saved_at
            &&& echoed != 0xffff && 0 < trip < 5000 ==> after.rtt == c.rtt.updated(trip as u64)
            &&& echoed == 0xffff || trip == 0 || trip >= 5000 ==> after.rtt == c.rtt
            &&& after.remote == c.remote
            &&& after.send_seq == c.send_seq
            &&& after.next_id == c.next_id
            &&& after.assembly == c.assembly
            &&& after.last_heard == c.last_heard
        }),
{
    two_bytes(text.subrange(0, 2));
    two_bytes(text.subrange(2, 4));
}

/// A text of fewer than four bytes has no timestamps, one of fewer than fourteen no fragment, and
/// neither changes more than the timestamps say.
pub proof fn short_texts_are_refused(c: ConnectionView, text: Seq<u8>, stamp: u16, now: Instant)
    ensures
        text.len() < 4 ==> ConnectionView::fragment_in(text) == Err::<FragmentView, Seq<char>>(
            "Message too short: "@ + text::decimal(text.len()) + " bytes"@,
        ) && c.after_text_stamped(text, stamp, now) == c,
        4 <= text.len() < 14 ==> ConnectionView::fragment_in(text) == Err::<
            FragmentView,
            Seq<char>,
        >("Fragment too short"@),
        text.len() >= 14 ==> ConnectionView::fragment_in(text) is Ok,
        text.len() < 14 ==> c.outcome(text) is Err,
{
}

/// A fragment proves that the connection is alive, and that the client of a server is where it came
/// from; a client stays with its server.
pub proof fn fragment_proves_contact(
    c: ConnectionView,
    f: FragmentView,
    peer: Address,
    now: Instant,
)
    ensures
        ({
            let after = c.after_fragment(f, peer, now);
            &&& after.last_heard == now
            &&& after.last_roundtrip_success == now
            &&& c.server ==> after.remote == Some(peer)
            &&& !c.server ==> after.remote == c.remote
            &&& after.last_port_choice == c.last_port_choice
            &&& after.rtt == c.rtt
            &&& after.send_seq == c.send_seq
        }),
        c.server && c.remote is None ==> c.learned(peer).remote == Some(peer),
{
}

/// A client takes another port once it has kept its port and not heard from the server for more than
/// ten seconds; a server keeps its port.
pub proof fn ports_are_changed_after_silence(c: ConnectionView, now: Instant)
    ensures
        c.hops(now) <==> !c.server && now.nanos > c.last_port_choice.nanos + 10_000_000_000
            && now.nanos > c.last_roundtrip_success.nanos + 10_000_000_000,
{
}

/// Every fragment that is encrypted counts, and uses up the key by its blocks.
pub proof fn sequence_numbers_count(c: ConnectionView, f: FragmentView)
    requires
        c.key_lasts(f),
    ensures
        c.after_encrypt(f).send_seq == c.send_seq + 1,
        c.after_encrypt(f).session.blocks_encrypted == c.session.blocks_encrypted
            + session::blocks((14 + f.payload.len()) as nat),
        c.after_encrypt(f).session.key == c.session.key,
        c.after_encrypt(f).remote == c.remote,
        c.after_encrypt(f).next_id == c.next_id,
{
}

/// A connection starts with the first id and the first sequence number, knows no remote address and
/// has no timestamp to echo.
pub proof fn connections_start_anew(server: bool, s: SessionView, now: Instant)
    ensures
        ({
            let c = ConnectionView::fresh(server, s, now);
            &&& c.next_id == 1
            &&& c.send_seq == 0
            &&& c.remote is None
            &&& c.saved_timestamp == 0
            &&& c.echo(now) == 0xffff
            &&& c.server == server
            &&& c.last_heard == now
            &&& !c.hops(now)
        }),
{
}

/// A packet begins with the number of the fragment that is sent, the top bit set by a server, and goes
/// on with its text under the key.
pub proof fn packets_are_numbered(c: ConnectionView, f: FragmentView, stamp: u16, now: Instant)
    requires
        c.send_seq < 0x8000_0000_0000_0000,
    ensures
        ({
            let p = c.packet_stamped(f, stamp, now);
            let number = c.send_seq + if c.server {
                0x8000_0000_0000_0000int
            } else {
                0
            };
            &&& bytes::be_value(p.take(8)) == number
            &&& p.skip(8) == session::ocb_sealed(
                c.session.key,
                seq![0u8, 0u8, 0u8, 0u8] + p.take(8),
                c.text_stamped(f, stamp, now),
            )
            &&& c.packet_of(f, now) == c.packet_stamped(f, timestamp16_at(now), now)
            &&& c.text_of(f, now) == c.text_stamped(f, timestamp16_at(now), now)
        }),
{
    nonces_tell_direction(c.send_seq);
    let value = nonce_value(c.server, c.send_seq);
    nonce::nonce_roundtrip(value);
    let n = nonce::nonce_bytes(value);
    let p = c.packet_stamped(f, stamp, now);
    assert(p.take(8) =~= n.skip(4));
    assert(seq![0u8, 0u8, 0u8, 0u8] + p.take(8) =~= n);
    assert(p.skip(8) =~= session::ocb_sealed(
        c.session.key,
        n,
        c.text_stamped(f, stamp, now),
    ));
}

/// Instructions have ids that follow each other; all fragments of one have its id. Without a remote
/// address none is made.
pub proof fn instructions_are_numbered(
    before: ConnectionView,
    inst: InstructionView,
    res: Result<(Address, Vec<Fragment>), String>,
    after: ConnectionView,
)
    requires
        dispatched(before, inst, res, after),
    ensures
        res is Ok && before.next_id < u64::MAX ==> after.next_id == before.next_id + 1,
        res is Ok && before.next_id == u64::MAX ==> after.next_id == 0,
        res is Ok ==> before.remote == Some(res.unwrap().0) && forall|i: int|
            0 <= i < res.unwrap().1@.len() ==> (#[trigger] res.unwrap().1@[i])@.id
                == before.next_id,
        res is Err ==> after == before,
        before.remote is None ==> res is Err && res.unwrap_err()@ == "No remote address"@,
{
    if res is Ok {
        let frags = res.unwrap().1@;
        assert forall|i: int| 0 <= i < frags.len() implies (#[trigger] frags[i])@.id
            == before.next_id by {
            let all = fragment::fragments_view(frags);
            let room = constants::payload_room(MTU_IPV4 as int) as nat;
            let payload = fragment::payload_of(
                fragment::compressed_bytes(inst),
                fragment::state_of(inst),
                room,
            );
            assert(all[i] == frags[i]@);
            let pieces = fragment::cut(before.next_id, payload, room);
            assert(all == pieces);
            assert(all.len() == frags.len());
            assert(pieces.len() == fragment::piece_count(payload.len(), room));
            assert(pieces[i] == fragment::fragment_at(before.next_id, payload, room, i));
        }
    }
}

/// What is said of a packet that cannot be opened.
pub proof fn failures_are_told(e: CryptoError)
    ensures
        e is TooShort ==> decryption_error(e) == "Decryption error: "@
            + "Ciphertext must contain nonce and tag"@,
        e is IntegrityCheckFailed ==> decryption_error(e) == "Decryption error: "@
            + "Packet failed integrity check"@,
{
}

/// What arrives in a packet is taken as far as it goes: a server learns where its client is, a text of
/// four bytes brings timestamps, and one of fourteen a fragment, which is added to the others and
/// proves that the connection is alive.
pub proof fn packets_are_taken(
    c: ConnectionView,
    text: Seq<u8>,
    peer: Address,
    stamp: u16,
    now: Instant,
)
    ensures
        ({
            let after = c.after_packet_stamped(text, peer, stamp, now);
            let theirs = 256 * text[0] + text[1];
            let echoed = 256 * text[2] + text[3];
            let trip = (stamp - echoed) % 65536;
            let whole = text.len() >= 14;
            let stamped = text.len() >= 4;
            &&& c.server && (whole || c.remote is None) ==> after.remote == Some(peer)
            &&& !c.server || !whole && c.remote is Some ==> after.remote == c.remote
            &&& stamped && theirs != 0xffff ==> after.saved_timestamp == theirs && after.saved_at
                == now
            &&& !stamped || theirs == 0xffff ==> after.saved_timestamp == c.saved_timestamp
                && after.saved_at == c.saved_at
            &&& stamped && echoed != 0xffff && 0 < trip < 5000 ==> after.rtt == c.rtt.updated(
                trip as u64,
            )
            &&& !stamped || echoed == 0xffff || trip == 0 || trip >= 5000 ==> after.rtt == c.rtt
            &&& whole ==> after.last_heard == now && after.last_roundtrip_success == now
                && after.assembly == c.assembly.after(fragment::fragment_of(text.skip(4)))
                && c.outcome(text) == c.assembly.outcome(fragment::fragment_of(text.skip(4)))
            &&& !whole ==> after.last_heard == c.last_heard && after.last_roundtrip_success
                == c.last_roundtrip_success && after.assembly == c.assembly
            &&& after.send_seq == c.send_seq && after.next_id == c.next_id && after.session
                == c.session && after.server == c.server && after.last_port_choice
                == c.last_port_choice
            &&& c.after_packet(text, peer, now) == c.after_packet_stamped(
                text,
                peer,
                timestamp16_at(now),
                now,
            )
        }),
{
    if text.len() >= 4 {
        two_bytes(text.subrange(0, 2));
        two_bytes(text.subrange(2, 4));
    }
}

} // verus!
