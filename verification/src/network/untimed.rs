//! A connection whose packets carry fragments alone: no timestamps, and no nonces of their own.
//!
//! Every packet goes out under the nonce zero: direction and sequence are for the caller to manage.

use crate::bytes;
use crate::crypto::nonce;
use crate::crypto::nonce::Nonce;
use crate::crypto::session;
use crate::crypto::session::CryptoError;
use crate::crypto::session::Message;
use crate::crypto::session::Session;
use crate::crypto::session::SessionView;
use crate::network::connection;
use crate::network::connection::Address;
use crate::network::connection::RECEIVE_ROOM;
use crate::network::connection::ROUND_TRIP_LIMIT_MS;
use crate::network::constants;
use crate::network::constants::max_fragment_payload;
use crate::network::constants::FRAG_HEADER_LEN;
use crate::network::constants::MTU_IPV4;
use crate::network::constants::PORT_HOP_INTERVAL_MS;
use crate::network::fragment;
use crate::network::fragment::AssemblyView;
use crate::network::fragment::Fragment;
use crate::network::fragment::FragmentAssembly;
use crate::network::fragment::FragmentView;
use crate::network::fragment::Fragmenter;
use crate::network::rtt::RttEstimator;
use crate::network::rtt::RttView;
use crate::network::transport;
use crate::network::transport::DiffView;
use crate::network::transport::ReceivedDiff;
use crate::network::transport::ReceiverView;
use crate::network::transport::SenderView;
use crate::network::transport::TransportReceiver;
use crate::network::transport::TransportSender;
use crate::proto::transport::Instruction as TransportInstruction;
use crate::proto::transport::InstructionView;
use crate::time;
use crate::time::Instant;
use vstd::prelude::*;

verus! {

/// What a connection holds.
#[verifier::ext_equal]
pub struct UntimedView {
    pub session: SessionView,
    pub rtt: RttView,
    /// The id of the next instruction.
    pub next_id: u64,
    pub assembly: AssemblyView,
    pub last_port_choice: Instant,
    pub last_roundtrip_success: Instant,
    pub server: bool,
    pub remote: Option<Address>,
    pub last_heard: Instant,
}

impl UntimedView {
    /// A connection that has just been made.
    pub open spec fn fresh(server: bool, session: SessionView, now: Instant) -> UntimedView {
        UntimedView {
            session,
            rtt: RttView::fresh(),
            next_id: 1,
            assembly: AssemblyView { pending: Map::empty(), finals: Map::empty() },
            last_port_choice: now,
            last_roundtrip_success: now,
            server,
            remote: None,
            last_heard: now,
        }
    }

    /// The packet that a fragment is sent as: its bytes under the nonce zero.
    pub open spec fn packet_of(self, f: FragmentView) -> Seq<u8> {
        session::packet(self.session.key, nonce::nonce_bytes(0), f.bytes())
    }

    /// The bytes of a fragment.
    pub open spec fn text_len(f: FragmentView) -> nat {
        FRAG_HEADER_LEN as nat + f.payload.len()
    }

    /// Whether the key lasts for one more fragment.
    pub open spec fn key_lasts(self, f: FragmentView) -> bool {
        self.session.blocks_encrypted + session::blocks(Self::text_len(f)) < session::BLOCK_LIMIT
    }

    /// The fragment in a text, or why there is none.
    pub open spec fn fragment_in(text: Seq<u8>) -> Result<FragmentView, Seq<char>> {
        if text.len() < FRAG_HEADER_LEN {
            Err("Fragment too short"@)
        } else {
            Ok(fragment::fragment_of(text))
        }
    }

    /// A server learns the address of its client from the first packet.
    pub open spec fn learned(self, peer: Address) -> UntimedView {
        if self.server && self.remote is None {
            UntimedView { remote: Some(peer), ..self }
        } else {
            self
        }
    }

    /// After a packet with the given text arrived from a peer: with a fragment in it the connection is
    /// alive, and a server follows its client to a new address.
    pub open spec fn after_packet(self, text: Seq<u8>, peer: Address, now: Instant) -> UntimedView {
        match Self::fragment_in(text) {
            Ok(f) => UntimedView {
                remote: if self.server {
                    Some(peer)
                } else {
                    self.remote
                },
                last_heard: now,
                last_roundtrip_success: now,
                assembly: self.assembly.after(f),
                ..self
            },
            Err(_) => self.learned(peer),
        }
    }

    /// What a packet with the given text gives.
    pub open spec fn outcome(self, text: Seq<u8>) -> Result<Option<InstructionView>, Seq<char>> {
        match Self::fragment_in(text) {
            Ok(f) => self.assembly.outcome(f),
            Err(e) => Err(e),
        }
    }

    /// Whether it is time for a new port.
    pub open spec fn hops(self, now: Instant) -> bool {
        &&& !self.server
        &&& time::nanos_between(self.last_port_choice, now) > PORT_HOP_INTERVAL_MS * 1_000_000
        &&& time::nanos_between(self.last_roundtrip_success, now) > PORT_HOP_INTERVAL_MS * 1_000_000
    }
}

/// What sending an instruction gives: its fragments and where to send them. Without a remote address
/// nothing is sent, nor is what cannot be compressed.
pub open spec fn dispatched(
    before: UntimedView,
    inst: InstructionView,
    res: Result<(Address, Vec<Fragment>), String>,
    after: UntimedView,
) -> bool {
    match res {
        Ok((remote, frags)) => {
            &&& before.remote == Some(remote)
            &&& fragment::fragments_carry(
                fragment::fragments_view(frags@),
                before.next_id,
                inst,
                constants::payload_room(MTU_IPV4 as int) as nat,
            )
            &&& after == (UntimedView {
                next_id: if before.next_id < u64::MAX {
                    (before.next_id + 1) as u64
                } else {
                    0
                },
                ..before
            })
        },
        Err(e) => after == before && match before.remote {
            Some(_) => fragment::compression(inst) == Err::<Seq<u8>, Seq<char>>(e@),
            None => e@ == "No remote address"@,
        },
    }
}

/// Encrypted connection with fragmentation and RTT estimation.
pub struct Connection {
    session: Session,
    rtt: RttEstimator,
    fragger: Fragmenter,
    assembler: FragmentAssembly,
    last_port_choice: Instant,
    last_roundtrip_success: Instant,
    server: bool,
    remote_addr: Option<Address>,
    last_heard: Instant,
}

impl View for Connection {
    type V = UntimedView;

    closed spec fn view(&self) -> UntimedView {
        UntimedView {
            session: self.session@,
            rtt: self.rtt@,
            next_id: self.fragger@,
            assembly: self.assembler@,
            last_port_choice: self.last_port_choice,
            last_roundtrip_success: self.last_roundtrip_success,
            server: self.server,
            remote: self.remote_addr,
            last_heard: self.last_heard,
        }
    }
}

impl Connection {
    /// The estimates of the round-trip time are within bounds.
    pub open spec fn wf(&self) -> bool {
        self@.rtt.bounded()
    }

    /// A connection made at a given time.
    fn made_at(server: bool, session: Session, now: Instant) -> (res: Self)
        ensures
            res.wf(),
            res@ == UntimedView::fresh(server, session@, now),
    {
        Connection {
            session,
            rtt: RttEstimator::new(),
            fragger: Fragmenter::new(),
            assembler: FragmentAssembly::new(),
            last_port_choice: now,
            last_roundtrip_success: now,
            server,
            remote_addr: None,
            last_heard: now,
        }
    }

    /// A server-side connection made at a given time.
    pub fn new_server_at(session: Session, now: Instant) -> (res: Self)
        ensures
            res.wf(),
            res@ == UntimedView::fresh(true, session@, now),
    {
        Self::made_at(true, session, now)
    }

    /// A client-side connection made at a given time.
    pub fn new_client_at(session: Session, now: Instant) -> (res: Self)
        ensures
            res.wf(),
            res@ == UntimedView::fresh(false, session@, now),
    {
        Self::made_at(false, session, now)
    }

    /// Sets the remote address.
    pub fn set_remote_addr(&mut self, addr: Address)
        ensures
            final(self)@ == (UntimedView { remote: Some(addr), ..old(self)@ }),
    {
        self.remote_addr = Some(addr);
    }

    /// Whether the remote address is known.
    pub fn has_remote(&self) -> (res: bool)
        ensures
            res == self@.remote is Some,
    {
        self.remote_addr.is_some()
    }

    /// The remote address.
    pub fn remote_addr(&self) -> (res: Option<Address>)
        ensures
            res == self@.remote,
    {
        self.remote_addr
    }

    /// The estimator of the round-trip time.
    pub fn rtt(&self) -> (res: &RttEstimator)
        ensures
            res@ == self@.rtt,
    {
        &self.rtt
    }

    /// Records a sample of the round-trip time.
    pub fn record_rtt(&mut self, rtt_ms: u64)
        requires
            old(self).wf(),
        ensures
            final(self).wf(),
            final(self)@ == (UntimedView { rtt: old(self)@.rtt.updated(rtt_ms), ..old(self)@ }),
    {
        self.rtt.update(rtt_ms);
    }

    /// The nanoseconds since something was last heard.
    pub fn time_since_last_heard(&self, now: Instant) -> (res: u64)
        ensures
            res == time::nanos_between(self@.last_heard, now),
    {
        now.nanos.saturating_sub(self.last_heard.nanos)
    }

    /// Whether to change ports (client only).
    pub fn should_hop_port(&self, now: Instant) -> (res: bool)
        ensures
            res == self@.hops(now),
    {
        !self.server && now.nanos.saturating_sub(self.last_port_choice.nanos)
            > PORT_HOP_INTERVAL_MS * 1_000_000 && now.nanos.saturating_sub(
            self.last_roundtrip_success.nanos,
        ) > PORT_HOP_INTERVAL_MS * 1_000_000
    }

    /// Marks that a new port was chosen.
    pub fn hop_port(&mut self, now: Instant)
        ensures
            final(self)@ == (UntimedView { last_port_choice: now, ..old(self)@ }),
    {
        self.last_port_choice = now;
    }

    /// The fragments of an instruction, and where to send them. Without a remote address nothing is
    /// sent.
    pub fn send(&mut self, inst: &TransportInstruction) -> (res: Result<
        (Address, Vec<Fragment>),
        String,
    >)
        ensures
            dispatched(old(self)@, inst@, res, final(self)@),
    {
        match self.remote_addr {
            Some(remote) => {
                match self.fragger.make_fragments(inst, max_fragment_payload(MTU_IPV4)) {
                    Ok(frags) => Ok((remote, frags)),
                    Err(e) => Err(e),
                }
            },
            None => Err("No remote address".to_owned()),
        }
    }

    /// Encrypts a fragment.
    pub fn encrypt_fragment(&mut self, frag: &Fragment) -> (res: Result<Vec<u8>, String>)
        ensures
            match res {
                Ok(wire) => {
                    &&& UntimedView::text_len(frag@) <= session::max_text()
                    &&& old(self)@.key_lasts(frag@)
                    &&& wire@ == old(self)@.packet_of(frag@)
                    &&& wire@.len() == 8 + UntimedView::text_len(frag@) + session::ADDED_BYTES
                    &&& final(self)@ == (UntimedView {
                        session: SessionView {
                            blocks_encrypted: (old(self)@.session.blocks_encrypted
                                + session::blocks(UntimedView::text_len(frag@))) as u64,
                            ..old(self)@.session
                        },
                        ..old(self)@
                    })
                },
                Err(e) => {
                    &&& final(self)@ == old(self)@
                    &&& if UntimedView::text_len(frag@) <= session::max_text() {
                        !old(self)@.key_lasts(frag@) && e@ == "Session key must be rotated"@
                    } else {
                        e@ == "Fragment too long"@
                    }
                },
            },
    {
        if frag.payload.len() > session::text_limit() - FRAG_HEADER_LEN {
            return Err("Fragment too long".to_owned());
        }
        let blocks: u64 = (frag.payload.len() as u64 + 10 + 15) / 16;
        if !self.session.lasts(blocks) {
            return Err("Session key must be rotated".to_owned());
        }
        proof {
            frag@.bytes_len();
        }
        let msg = Message::new(Nonce::from_val(0), frag.to_bytes());
        Ok(self.session.encrypt(&msg))
    }

    /// A server learns the address of its client from the first packet.
    fn learn(&mut self, peer: Address)
        ensures
            final(self)@ == old(self)@.learned(peer),
    {
        if self.server && self.remote_addr.is_none() {
            self.remote_addr = Some(peer);
        }
    }

    /// Takes the text of a packet from a peer. Gives the instruction that it completes, if any.
    pub fn take_text(&mut self, text: &Vec<u8>, peer: Address, now: Instant) -> (res: Result<
        Option<TransportInstruction>,
        String,
    >)
        requires
            old(self).wf(),
        ensures
            final(self).wf(),
            final(self)@ == old(self)@.after_packet(text@, peer, now),
            connection::outcome_view(res) == old(self)@.outcome(text@),
    {
        self.learn(peer);
        match Fragment::from_bytes(text.as_slice()) {
            Ok(frag) => {
                self.last_heard = now;
                self.last_roundtrip_success = now;
                if self.server {
                    self.remote_addr = Some(peer);
                }
                self.assembler.add_fragment(frag)
            },
            Err(e) => Err(e),
        }
    }

    /// Takes a packet that arrived from a peer at a given time.
    pub fn recv_at(&mut self, data: &[u8], peer: Address, now: Instant) -> (res: Result<
        Option<TransportInstruction>,
        String,
    >)
        requires
            old(self).wf(),
            data@.len() <= RECEIVE_ROOM,
        ensures
            final(self).wf(),
            exists|msg: Result<Message, CryptoError>| #[trigger]
                session::opened(old(self)@.session.key, data@, msg) && match msg {
                    Ok(m) => {
                        &&& final(self)@ == old(self)@.after_packet(m.text@, peer, now)
                        &&& connection::outcome_view(res) == old(self)@.outcome(m.text@)
                    },
                    Err(e) => {
                        &&& final(self)@ == old(self)@.learned(peer)
                        &&& connection::outcome_view(res) == Err::<
                            Option<InstructionView>,
                            Seq<char>,
                        >(connection::decryption_error(e))
                    },
                },
    {
        let msg = self.session.decrypt(data);
        let ghost opened = msg;
        assert(session::opened(old(self)@.session.key, data@, opened));
        match msg {
            Ok(msg) => self.take_text(&msg.text, peer, now),
            Err(e) => {
                self.learn(peer);
                let mut s = "Decryption error: ".to_owned();
                s.push_str(e.message().as_str());
                assert(s@ == connection::decryption_error(e));
                Err(s)
            },
        }
    }
}

/// What a transport over such a connection holds.
#[verifier::ext_equal]
pub struct UntimedTransportView {
    pub sender: SenderView,
    pub receiver: ReceiverView,
    pub connection: UntimedView,
}

impl UntimedTransportView {
    /// After a diff was sent: on to the next state.
    pub open spec fn after_sent(self, now: Instant) -> UntimedTransportView {
        UntimedTransportView {
            sender: self.sender.advanced().sent(now),
            receiver: self.receiver.after_ack(now),
            ..self
        }
    }

    /// After an instruction arrived: the time since the last send is a sample of the round-trip time.
    pub open spec fn after_instruction(
        self,
        inst: InstructionView,
        now: Instant,
    ) -> UntimedTransportView {
        let diff = transport::parsed(inst);
        let trip = time::millis_between(self.sender.last_send_time, now);
        UntimedTransportView {
            sender: self.sender.acked(diff.ack_num),
            receiver: self.receiver.taken(diff, now),
            connection: UntimedView {
                rtt: if 0 < trip < ROUND_TRIP_LIMIT_MS {
                    self.connection.rtt.updated(trip as u64)
                } else {
                    self.connection.rtt
                },
                ..self.connection
            },
        }
    }

    /// After what a packet gave, where `connection` is the connection after it.
    pub open spec fn after_outcome(
        self,
        connection: UntimedView,
        outcome: Result<Option<InstructionView>, Seq<char>>,
        now: Instant,
    ) -> UntimedTransportView {
        match outcome {
            Ok(Some(inst)) => (UntimedTransportView { connection, ..self }).after_instruction(
                inst,
                now,
            ),
            _ => UntimedTransportView { connection, ..self },
        }
    }
}

/// Transport for state synchronization over such a connection.
pub struct Transport {
    pub sender: TransportSender,
    pub receiver: TransportReceiver,
    pub connection: Connection,
}

impl View for Transport {
    type V = UntimedTransportView;

    open spec fn view(&self) -> UntimedTransportView {
        UntimedTransportView {
            sender: self.sender@,
            receiver: self.receiver@,
            connection: self.connection@,
        }
    }
}

impl Transport {
    /// The parts are well-formed.
    pub open spec fn wf(&self) -> bool {
        &&& self.sender.wf()
        &&& self.connection.wf()
    }

    /// A transport made at a given time.
    pub fn new_at(connection: Connection, now: Instant) -> (res: Self)
        requires
            connection.wf(),
        ensures
            res.wf(),
            res@ == (UntimedTransportView {
                sender: SenderView::fresh(now),
                receiver: ReceiverView::fresh(now),
                connection: connection@,
            }),
    {
        Transport {
            sender: TransportSender::new_at(now),
            receiver: TransportReceiver::new_at(now),
            connection,
        }
    }

    /// The fragments for a state diff. Once they are sent, call [`Transport::mark_sent`].
    pub fn send_diff(&mut self, diff: Vec<u8>, ack_num: u64, throwaway_num: u64) -> (res: Result<
        (Address, Vec<Fragment>),
        String,
    >)
        requires
            old(self).wf(),
            old(self)@.sender.state_num < u64::MAX,
        ensures
            final(self).wf(),
            final(self)@.sender == old(self)@.sender,
            final(self)@.receiver == old(self)@.receiver,
            dispatched(
                old(self)@.connection,
                old(self)@.sender.next_instruction(diff@, ack_num, throwaway_num),
                res,
                final(self)@.connection,
            ),
    {
        let inst = self.sender.next_instruction(diff, ack_num, throwaway_num);
        self.connection.send(&inst)
    }

    /// Marks that a diff was sent.
    pub fn mark_sent(&mut self, now: Instant)
        requires
            old(self).wf(),
            old(self)@.sender.state_num < u64::MAX,
        ensures
            final(self).wf(),
            final(self)@ == old(self)@.after_sent(now),
    {
        self.sender.advance_state();
        self.sender.record_send(now);
        self.receiver.ack_sent(now);
    }

    /// Takes an instruction that arrived.
    pub fn take_instruction(&mut self, inst: &TransportInstruction, now: Instant) -> (res:
        ReceivedDiff)
        requires
            old(self).wf(),
        ensures
            final(self).wf(),
            final(self)@ == old(self)@.after_instruction(inst@, now),
            res@ == transport::parsed(inst@),
    {
        let trip: u64 = now.millis_since(self.sender.last_send_time());
        if trip > 0 && trip < ROUND_TRIP_LIMIT_MS {
            self.connection.record_rtt(trip);
        }
        let diff = TransportReceiver::parse_instruction(inst);
        self.receiver.take(&diff, now);
        self.sender.record_ack(diff.ack_num);
        diff
    }

    /// Takes a packet that arrived from a peer at a given time. Gives the state diff that it completes,
    /// if any.
    pub fn recv_diff_at(&mut self, data: &[u8], peer: Address, now: Instant) -> (res: Result<
        Option<ReceivedDiff>,
        String,
    >)
        requires
            old(self).wf(),
            data@.len() <= RECEIVE_ROOM,
        ensures
            final(self).wf(),
            exists|msg: Result<Message, CryptoError>| #[trigger]
                session::opened(old(self)@.connection.session.key, data@, msg) && match msg {
                    Ok(m) => {
                        &&& final(self)@ == old(self)@.after_outcome(
                            old(self)@.connection.after_packet(m.text@, peer, now),
                            old(self)@.connection.outcome(m.text@),
                            now,
                        )
                        &&& transport::received_view(res) == transport::parsed_outcome(
                            old(self)@.connection.outcome(m.text@),
                        )
                    },
                    Err(e) => {
                        &&& final(self)@ == (UntimedTransportView {
                            connection: old(self)@.connection.learned(peer),
                            ..old(self)@
                        })
                        &&& transport::received_view(res) == Err::<Option<DiffView>, Seq<char>>(
                            connection::decryption_error(e),
                        )
                    },
                },
    {
        match self.connection.recv_at(data, peer, now) {
            Ok(Some(inst)) => Ok(Some(self.take_instruction(&inst, now))),
            Ok(None) => Ok(None),
            Err(e) => Err(e),
        }
    }

    /// Whether to hop ports.
    pub fn should_hop_port(&self, now: Instant) -> (res: bool)
        ensures
            res == self@.connection.hops(now),
    {
        self.connection.should_hop_port(now)
    }

    /// Marks that a new port was chosen.
    pub fn hop_port(&mut self, now: Instant)
        requires
            old(self).wf(),
        ensures
            final(self).wf(),
            final(self)@ == (UntimedTransportView {
                connection: UntimedView { last_port_choice: now, ..old(self)@.connection },
                ..old(self)@
            }),
    {
        self.connection.hop_port(now);
    }
}

/// What one side sends, the other reads: a packet opens under the same key, and its text holds the
/// fragment that was sent.
pub proof fn packet_carries_fragment(
    sender: UntimedView,
    receiver: UntimedView,
    f: FragmentView,
    data: Seq<u8>,
    msg: Result<Message, CryptoError>,
)
    requires
        sender.session.key == receiver.session.key,
        f.fragment_num < 0x8000,
        data == sender.packet_of(f),
        data.len() == 8 + UntimedView::text_len(f) + session::ADDED_BYTES,
        session::opened(receiver.session.key, data, msg),
    ensures
        msg matches Ok(m) && UntimedView::fragment_in(m.text@) == Ok::<FragmentView, Seq<char>>(f),
{
    fragment::fragment_roundtrip(f);
    session::decrypt_undoes_encrypt(sender.session.key, 0, f.bytes(), data, msg);
}

/// Roaming: a server answers to the address from which the last packet of its client came, whatever
/// address it knew before.
pub proof fn server_follows_client(
    client: UntimedView,
    server: UntimedView,
    f: FragmentView,
    received: Instant,
    data: Seq<u8>,
    msg: Result<Message, CryptoError>,
    peer: Address,
)
    requires
        server.server,
        client.session.key == server.session.key,
        f.fragment_num < 0x8000,
        data == client.packet_of(f),
        data.len() == 8 + UntimedView::text_len(f) + session::ADDED_BYTES,
        session::opened(server.session.key, data, msg),
    ensures
        msg matches Ok(m) && server.after_packet(m.text@, peer, received).remote == Some(peer),
{
    packet_carries_fragment(client, server, f, data, msg);
}

/// What cannot be decrypted does not change where a known remote is, and nothing that arrives changes
/// where a client sends to.
pub proof fn strangers_do_not_redirect(c: UntimedView, text: Seq<u8>, peer: Address, now: Instant)
    ensures
        c.remote is Some ==> c.learned(peer) == c,
        !c.server ==> c.learned(peer) == c && c.after_packet(text, peer, now).remote == c.remote,
{
}

/// A server that has received anything can send.
pub proof fn server_can_answer(c: UntimedView, text: Seq<u8>, peer: Address, now: Instant)
    requires
        c.server,
    ensures
        c.learned(peer).remote is Some,
        c.after_packet(text, peer, now).remote is Some,
{
}

/// A packet without timestamps is a fragment under the nonce zero; one of fewer than ten bytes has no
/// fragment, and does not prove that the connection is alive.
pub proof fn packets_are_read(c: UntimedView, text: Seq<u8>, peer: Address, now: Instant)
    ensures
        ({
            let after = c.after_packet(text, peer, now);
            &&& text.len() < 10 ==> UntimedView::fragment_in(text) == Err::<
                FragmentView,
                Seq<char>,
            >("Fragment too short"@)
            &&& text.len() < 10 ==> after.last_heard == c.last_heard && after.assembly
                == c.assembly && c.outcome(text) is Err
            &&& text.len() >= 10 ==> UntimedView::fragment_in(text) is Ok
            &&& text.len() >= 10 ==> after.last_heard == now && after.last_roundtrip_success == now
            &&& text.len() >= 10 && c.server ==> after.remote == Some(peer)
            &&& c.server && c.remote is None ==> after.remote == Some(peer)
            &&& !c.server ==> after.remote == c.remote
            &&& after.next_id == c.next_id
            &&& after.rtt == c.rtt
        }),
        UntimedView::fresh(c.server, c.session, now).next_id == 1,
        UntimedView::fresh(c.server, c.session, now).remote is None,
{
}

/// A client takes another port once it has kept its port and not heard from the server for more than
/// ten seconds; a server keeps its port.
pub proof fn ports_are_changed_after_silence(c: UntimedView, now: Instant)
    ensures
        c.hops(now) <==> !c.server && now.nanos > c.last_port_choice.nanos + 10_000_000_000
            && now.nanos > c.last_roundtrip_success.nanos + 10_000_000_000,
{
}

/// Sending a state leads to the next one. What arrives raises the numbers that it tells, and is a
/// sample of the round-trip time if it comes within five seconds of the last send.
pub proof fn states_are_numbered(t: UntimedTransportView, inst: InstructionView, now: Instant)
    requires
        t.sender.state_num < u64::MAX,
    ensures
        ({
            let sent = t.after_sent(now);
            let after = t.after_instruction(inst, now);
            let d = transport::parsed(inst);
            let trip = (now.nanos - t.sender.last_send_time.nanos) / 1_000_000;
            &&& sent.sender.state_num == t.sender.state_num + 1
            &&& sent.sender.last_sent_num == t.sender.state_num + 1
            &&& sent.sender.last_send_time == now
            &&& sent.connection == t.connection
            &&& after.sender.state_num == t.sender.state_num
            &&& after.sender.acked_state_num == if d.ack_num > t.sender.acked_state_num {
                d.ack_num
            } else {
                t.sender.acked_state_num
            }
            &&& after.receiver.remote_state_num == if d.new_num > t.receiver.remote_state_num {
                d.new_num
            } else {
                t.receiver.remote_state_num
            }
            &&& 0 < trip < 5000 ==> after.connection.rtt == t.connection.rtt.updated(trip as u64)
            &&& !(0 < trip < 5000) ==> after.connection.rtt == t.connection.rtt
        }),
{
}

/// Every packet is sealed under the nonce zero.
pub proof fn nonce_is_zero(c: UntimedView, f: FragmentView)
    ensures
        c.packet_of(f) == session::packet(c.session.key, Seq::new(12, |i: int| 0u8), f.bytes()),
        UntimedView::text_len(f) == 10 + f.payload.len(),
{
    bytes::be_bytes_len(0, 8);
    zero_bytes(8);
    assert(nonce::nonce_bytes(0) =~= Seq::new(12, |i: int| 0u8));
}

proof fn zero_bytes(n: nat)
    ensures
        bytes::be_bytes(0, n) == Seq::new(n, |i: int| 0u8),
    decreases n,
{
    if n > 0 {
        zero_bytes((n - 1) as nat);
    }
    assert(bytes::be_bytes(0, n) =~= Seq::new(n, |i: int| 0u8));
}

/// Instructions have ids that follow each other, and none is made without a remote address.
pub proof fn instructions_are_numbered(
    before: UntimedView,
    inst: InstructionView,
    res: Result<(Address, Vec<Fragment>), String>,
    after: UntimedView,
)
    requires
        dispatched(before, inst, res, after),
    ensures
        res is Ok && before.next_id < u64::MAX ==> after.next_id == before.next_id + 1,
        res is Ok && before.next_id == u64::MAX ==> after.next_id == 0,
        res is Ok ==> before.remote == Some(res.unwrap().0),
        res is Err ==> after == before,
        before.remote is None ==> res is Err && res.unwrap_err()@ == "No remote address"@,
{
}

/// An instruction that is complete changes the numbers; as long as none is, and where there is an
/// error, only the connection changes.
pub proof fn outcomes_are_taken(
    t: UntimedTransportView,
    connection: UntimedView,
    inst: InstructionView,
    e: Seq<char>,
    now: Instant,
)
    ensures
        t.after_outcome(connection, Ok(Some(inst)), now) == (UntimedTransportView {
            sender: t.sender,
            receiver: t.receiver,
            connection,
        }).after_instruction(inst, now),
        t.after_outcome(connection, Ok(None), now) == (UntimedTransportView {
            sender: t.sender,
            receiver: t.receiver,
            connection,
        }),
        t.after_outcome(connection, Err(e), now) == (UntimedTransportView {
            sender: t.sender,
            receiver: t.receiver,
            connection,
        }),
{
}

} // verus!
