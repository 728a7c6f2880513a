use morsh::crypto::base64_key::Base64Key;
use morsh::crypto::session::Session;
use morsh::network::connection::Address;
use morsh::network::connection::Connection;
use morsh::network::constants::ACK_DELAY_MS;
use morsh::network::constants::ACK_INTERVAL_MS;
use morsh::network::constants::SEND_INTERVAL_MAX_MS;
use morsh::network::constants::SEND_INTERVAL_MIN_MS;
use morsh::network::fragment::Fragment;
use morsh::network::transport::SendState;
use morsh::network::transport::Transport;
use morsh::network::transport::TransportReceiver;
use morsh::network::transport::TransportSender;
use morsh::proto::transport::Instruction as TransportInstruction;
use morsh::time::Instant;

fn peer(port: u16) -> Address {
    Address { v6: false, host: 0x7f00_0001, port, flow: 0, scope: 0 }
}

fn after(t: Instant, millis: u64) -> Instant {
    t.plus_millis(millis)
}

fn packets(t: &mut Transport, out: Result<(Address, Vec<Fragment>), String>) -> Vec<Vec<u8>> {
    let (_, frags) = out.unwrap();
    frags.iter().map(|f| t.connection_mut().encrypt_fragment(f).unwrap()).collect()
}

fn pair(now: Instant) -> (Transport, Transport) {
    let key = [4u8; 16];
    let mut client = Connection::new_client_at(Session::new(key), now);
    client.set_remote_addr(peer(60001));
    let server = Connection::new_server_at(Session::new(key), now);
    (Transport::new_at(client, now), Transport::new_at(server, now))
}

#[test]
fn sender_state_tracking() {
    let mut sender = TransportSender::new(true);
    assert_eq!(sender.state_num(), 0);
    assert_eq!(sender.acked_state_num(), 0);

    sender.advance_state();
    assert_eq!(sender.state_num(), 1);

    sender.record_ack(5);
    assert_eq!(sender.acked_state_num(), 5);

    sender.record_ack(3);
    assert_eq!(sender.acked_state_num(), 5);
}

#[test]
fn sender_send_interval() {
    let mut sender = TransportSender::new(true);

    assert_eq!(sender.send_interval_ms(), SEND_INTERVAL_MAX_MS);

    sender.update_send_interval(100);
    assert_eq!(sender.send_interval_ms(), 50);

    sender.update_send_interval(10);
    assert_eq!(sender.send_interval_ms(), SEND_INTERVAL_MIN_MS);

    sender.update_send_interval(500);
    assert_eq!(sender.send_interval_ms(), SEND_INTERVAL_MAX_MS);
}

#[test]
fn sender_should_send() {
    let mut sender = TransportSender::new(true);
    sender.set_state(SendState::Active);
    let now = Instant::now();

    assert!(sender.should_send(now));

    sender.record_send(now);
    assert!(!sender.should_send(after(now, 50)));
    assert!(sender.should_send(after(now, SEND_INTERVAL_MAX_MS + 1)));
}

#[test]
fn sender_build_instruction() {
    let mut sender = TransportSender::new(true);
    sender.advance_state();
    sender.advance_state();

    let inst = sender.build_instruction(b"hello".to_vec(), 3, 0);
    assert_eq!(inst.protocol_version, Some(2));
    assert_eq!(inst.old_num, Some(0));
    assert_eq!(inst.new_num, Some(2));
    assert_eq!(inst.ack_num, Some(3));
    assert_eq!(inst.throwaway_num, Some(0));
    assert_eq!(inst.diff, Some(b"hello".to_vec()));
}

#[test]
fn receiver_state_tracking() {
    let mut receiver = TransportReceiver::new(true);
    assert_eq!(receiver.state_num(), 0);

    receiver.advance_state();
    assert_eq!(receiver.state_num(), 1);

    assert!(!receiver.shutdown_received());
    receiver.set_shutdown_received();
    assert!(receiver.shutdown_received());
}

#[test]
fn receiver_parse_instruction() {
    let inst = TransportInstruction {
        protocol_version: Some(2),
        old_num: Some(5),
        new_num: Some(6),
        ack_num: Some(3),
        throwaway_num: Some(1),
        diff: Some(b"data".to_vec()),
        chaff: None,
    };

    let diff = TransportReceiver::parse_instruction(&inst);
    assert_eq!(diff.old_num, 5);
    assert_eq!(diff.new_num, 6);
    assert_eq!(diff.ack_num, 3);
    assert_eq!(diff.throwaway_num, 1);
    assert_eq!(diff.diff, b"data");
}

#[test]
fn shutdown_instruction() {
    let mut sender = TransportSender::new(false);
    sender.advance_state();

    let inst = sender.build_shutdown_instruction(1);
    assert!(inst.diff.is_none());
    assert_eq!(inst.old_num, Some(1));
    assert_eq!(inst.new_num, Some(u64::MAX));
}

#[test]
fn delayed_ack_scheduled_on_recv() {
    let mut receiver = TransportReceiver::new(true);
    let now = Instant::now();

    assert!(!receiver.pending_ack());
    assert!(!receiver.should_send_ack(now));

    receiver.record_recv(now);
    assert!(receiver.pending_ack());
    assert!(!receiver.should_send_ack(now));

    assert!(receiver.should_send_ack(after(now, ACK_DELAY_MS)));
}

#[test]
fn delayed_ack_cleared_on_send() {
    let mut receiver = TransportReceiver::new(true);
    let now = Instant::now();

    receiver.record_recv(now);
    assert!(receiver.pending_ack());

    receiver.ack_sent(after(now, 50));
    assert!(!receiver.pending_ack());
    assert!(receiver.ack_deadline().is_none());
}

#[test]
fn periodic_ack_interval() {
    let mut receiver = TransportReceiver::new(true);
    let now = Instant::now();

    assert!(receiver.should_send_ack(after(now, ACK_INTERVAL_MS)));

    receiver.ack_sent(after(now, ACK_INTERVAL_MS));
    assert!(!receiver.should_send_ack(after(now, ACK_INTERVAL_MS + 100)));

    assert!(receiver.should_send_ack(after(now, ACK_INTERVAL_MS * 2)));
}

#[test]
fn multiple_recacks_only_one_pending() {
    let mut receiver = TransportReceiver::new(true);
    let now = Instant::now();

    receiver.record_recv(now);
    let deadline1 = receiver.ack_deadline();

    receiver.record_recv(after(now, 50));
    assert_eq!(receiver.ack_deadline(), deadline1);
}

#[test]
fn transport_send_receive_encrypted() {
    let key = Base64Key::random().unwrap();
    let server_session = Session::new(*key.data());
    let server_conn = Connection::new_server(server_session);
    let mut server_transport = Transport::new_server(server_conn);

    let client_session = Session::new(*key.data());
    let mut client_conn = Connection::new_client(client_session);
    client_conn.set_remote_addr(peer(60001));
    let mut client_transport = Transport::new_client(client_conn);
    client_transport.sender.set_state(SendState::Active);
    client_transport.sender.advance_state();

    let test_data = b"hello from client".to_vec();
    let inst = TransportInstruction {
        protocol_version: Some(2),
        old_num: Some(0),
        new_num: Some(1),
        ack_num: Some(0),
        throwaway_num: Some(0),
        diff: Some(test_data.clone()),
        chaff: None,
    };
    let out = client_transport.connection_mut().send(&inst);
    let mut received = None;
    for packet in packets(&mut client_transport, out) {
        received = server_transport.recv_diff(&packet, peer(5)).unwrap();
    }

    assert!(received.is_some(), "Server should have received a packet");
    let received = received.unwrap();
    assert_eq!(received.diff, test_data);
    assert_eq!(received.new_num, 1);

    assert!(
        server_transport.connection().has_remote(),
        "Server should have learned client address from first packet"
    );

    server_transport.sender.set_state(SendState::Active);
    server_transport.sender.advance_state();
    let server_data = b"hello from server".to_vec();
    let server_inst = TransportInstruction {
        protocol_version: Some(2),
        old_num: Some(1),
        new_num: Some(1),
        ack_num: Some(0),
        throwaway_num: Some(0),
        diff: Some(server_data.clone()),
        chaff: None,
    };
    let out = server_transport.connection_mut().send(&server_inst);
    let mut received = None;
    for packet in packets(&mut server_transport, out) {
        received = client_transport.recv_diff(&packet, peer(60001)).unwrap();
    }

    assert!(received.is_some(), "Client should have received a packet");
    let received = received.unwrap();
    assert_eq!(received.diff, server_data);
    assert_eq!(received.old_num, 1);
}

#[test]
fn transport_wrong_key_fails() {
    let key1 = Base64Key::random().unwrap();
    let key2 = Base64Key::random().unwrap();

    let mut server_conn = Connection::new_server(Session::new(*key1.data()));
    let mut client_conn = Connection::new_client(Session::new(*key2.data()));
    client_conn.set_remote_addr(peer(60001));

    let inst = TransportInstruction {
        protocol_version: Some(2),
        old_num: Some(0),
        new_num: Some(1),
        ack_num: Some(0),
        throwaway_num: Some(0),
        diff: Some(b"secret".to_vec()),
        chaff: None,
    };
    let (_, frags) = client_conn.send(&inst).unwrap();
    let packet = client_conn.encrypt_fragment(&frags[0]).unwrap();
    let result = server_conn.recv(&packet, peer(5));
    assert!(result.is_err(), "Server should fail to decrypt with wrong key");
}

#[test]
fn sends_chain_their_numbers() {
    let now = Instant { nanos: 5_000_000_000 };
    let (mut client, mut server) = pair(now);
    let mut seen = Vec::new();
    for i in 0..3u8 {
        let out = client.send_diff(vec![i], 0, 0);
        for packet in packets(&mut client, out) {
            if let Some(diff) = server.recv_diff_at(&packet, peer(5), now).unwrap() {
                seen.push((diff.old_num, diff.new_num, diff.diff));
            }
        }
        client.mark_sent(now);
    }
    assert_eq!(seen, vec![(0, 1, vec![0]), (1, 2, vec![1]), (2, 3, vec![2])]);
    assert_eq!(server.receiver.remote_state_num(), 3);
    assert_eq!(client.sender.state_num(), 3);
}

#[test]
fn an_unsent_diff_does_not_advance() {
    let now = Instant { nanos: 5_000_000_000 };
    let (mut client, _) = pair(now);
    client.send_diff(vec![1], 0, 0).unwrap();
    assert_eq!(client.sender.state_num(), 0);
    let key = [4u8; 16];
    let mut lone = Transport::new_at(Connection::new_client_at(Session::new(key), now), now);
    assert_eq!(lone.send_diff(vec![1], 0, 0).unwrap_err(), "No remote address");
    assert_eq!(lone.send_ack(0).unwrap_err(), "No remote address");
    assert_eq!(lone.send_shutdown(0).unwrap_err(), "No remote address");
}

#[test]
fn acks_and_shutdown_are_told_apart() {
    let now = Instant { nanos: 5_000_000_000 };
    let (mut client, mut server) = pair(now);
    let out = client.send_ack(0);
    for packet in packets(&mut client, out) {
        let diff = server.recv_diff_at(&packet, peer(5), now).unwrap().unwrap();
        assert!(diff.diff.is_empty());
        assert_eq!(diff.new_num, 1);
    }
    client.mark_sent(now);
    assert!(!server.receiver.shutdown_received());
    let out = client.send_shutdown(7);
    for packet in packets(&mut client, out) {
        let diff = server.recv_diff_at(&packet, peer(5), now).unwrap().unwrap();
        assert_eq!(diff.new_num, u64::MAX);
        assert_eq!(diff.ack_num, 7);
    }
    client.mark_shutdown_sent(now);
    assert_eq!(client.sender.shutdown_retries(), 1);
    assert!(server.receiver.shutdown_received());
    assert_eq!(server.sender.acked_state_num(), 7);
}

#[test]
fn handshake_always_opens_the_session() {
    let now = Instant { nanos: 5_000_000_000 };
    let (mut client, mut server) = pair(now);
    client.send_diff(vec![1], 0, 0).unwrap();
    client.mark_sent(now);
    let out = client.send_handshake_message(b"all".to_vec(), 0, 0);
    for packet in packets(&mut client, out) {
        let diff = server.recv_diff_at(&packet, peer(5), now).unwrap().unwrap();
        assert_eq!((diff.old_num, diff.new_num), (0, 1));
        assert_eq!(diff.diff, b"all");
    }
    let later = after(now, 10);
    client.mark_resent(later);
    assert_eq!(client.sender.last_send_time(), later);
    assert_eq!(client.sender.state_num(), 1);
}

#[test]
fn replies_measure_the_round_trip() {
    let now = Instant { nanos: 5_000_000_000 };
    let (mut client, mut server) = pair(now);
    let out = client.send_ack(0);
    let sent = packets(&mut client, out);
    client.mark_sent(now);
    for packet in sent {
        server.recv_diff_at(&packet, peer(5), now).unwrap();
    }
    let inst = TransportInstruction {
        protocol_version: None,
        old_num: None,
        new_num: None,
        ack_num: Some(1),
        throwaway_num: None,
        diff: None,
        chaff: None,
    };
    let diff = client.take_instruction(&inst, after(now, 120));
    assert_eq!(diff.ack_num, 1);
    assert_eq!((diff.old_num, diff.new_num, diff.throwaway_num), (0, 0, 0));
    assert_eq!(client.sender.acked_state_num(), 1);
    assert_eq!(client.receiver.acked_state_num(), 1);
    assert_eq!(client.connection().rtt().srtt_ms(), 120);
    client.update_send_interval(120);
    assert_eq!(client.sender.send_interval_ms(), 60);
    assert!(client.should_send_ack(after(now, 220)));
    client.take_instruction(&inst, after(now, 6000));
    assert_eq!(client.connection().rtt().srtt_ms(), 120);
}

#[test]
fn pending_and_done_senders_do_not_send() {
    let now = Instant { nanos: 5_000_000_000 };
    let mut sender = TransportSender::new_at(now);
    assert_eq!(sender.state(), SendState::Pending);
    assert!(!sender.should_send(after(now, 100_000)));
    sender.set_state(SendState::Done);
    assert!(!sender.should_send(after(now, 100_000)));
    sender.set_state(SendState::Shutdown);
    sender.record_send(now);
    assert!(!sender.should_send(after(now, 49)));
    assert!(sender.should_send(after(now, 50)));
    sender.record_throwaway();
    assert_eq!(sender.throwaway_num(), 1);
}
