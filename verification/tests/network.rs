use morsh::crypto::session::Message;
use morsh::crypto::session::Session;
use morsh::network::connection::prune_sockets;
use morsh::network::connection::timestamp16;
use morsh::network::connection::timestamp_diff;
use morsh::network::connection::Address;
use morsh::network::connection::Connection;
use morsh::network::constants::max_fragment_payload;
use morsh::network::constants::CHAFF_MAX;
use morsh::network::constants::MIN_RTO_MS;
use morsh::network::constants::MORSH_PROTOCOL_VERSION;
use morsh::network::constants::MTU_FALLBACK;
use morsh::network::constants::MTU_IPV4;
use morsh::network::constants::SEND_INTERVAL_MAX_MS;
use morsh::network::constants::SEND_INTERVAL_MIN_MS;
use morsh::network::fragment::add_chaff;
use morsh::network::fragment::decompress;
use morsh::network::fragment::fragment_compressed;
use morsh::network::fragment::Fragment;
use morsh::network::fragment::FragmentAssembly;
use morsh::network::fragment::Fragmenter;
use morsh::network::rtt::RttEstimator;
use morsh::network::untimed;
use morsh::proto::transport::Instruction as TI;
use morsh::time::Instant;

fn instruction(diff: Vec<u8>) -> TI {
    TI {
        protocol_version: Some(MORSH_PROTOCOL_VERSION),
        old_num: Some(0),
        new_num: Some(1),
        ack_num: Some(0),
        throwaway_num: Some(0),
        diff: Some(diff),
        chaff: None,
    }
}

fn blank() -> TI {
    TI {
        protocol_version: None,
        old_num: None,
        new_num: None,
        ack_num: None,
        throwaway_num: None,
        diff: None,
        chaff: None,
    }
}

fn peer(port: u16) -> Address {
    Address { v6: false, host: 0x7f00_0001, port, flow: 0, scope: 0 }
}

fn at(millis: u64) -> Instant {
    Instant { nanos: millis * 1_000_000 }
}

fn noise(len: usize) -> Vec<u8> {
    let mut x: u32 = 12345;
    (0..len)
        .map(|_| {
            x = x.wrapping_mul(1664525).wrapping_add(1013904223);
            (x >> 24) as u8
        })
        .collect()
}

#[test]
fn timestamp_diff_basic() {
    assert_eq!(timestamp_diff(100, 50), 50);
    assert_eq!(timestamp_diff(50, 100), -50);
}

#[test]
fn timestamp_diff_wrapping() {
    assert_eq!(timestamp_diff(0, 65535), 1);
    assert_eq!(timestamp_diff(65535, 0), -1);
}

#[test]
fn connection_timestamp_diff_basic() {
    assert_eq!(timestamp_diff(100, 50), 50);
    assert_eq!(timestamp_diff(50, 100), -50);
    assert_eq!(timestamp_diff(7, 7), 0);
}

#[test]
fn connection_timestamp_diff_wrapping() {
    assert_eq!(timestamp_diff(0, 65535), 1);
    assert_eq!(timestamp_diff(65535, 0), -1);
    assert_eq!(timestamp_diff(0x8000, 0), -0x8000);
    assert_eq!(timestamp_diff(0, 0x8000), -0x8000);
    assert_eq!(timestamp_diff(0x7fff, 0), 0x7fff);
}

#[test]
fn timestamps_wrap_and_avoid_the_marker() {
    assert_eq!(timestamp16(at(0)), 0);
    assert_eq!(timestamp16(at(65534)), 65534);
    assert_eq!(timestamp16(at(65535)), 0);
    assert_eq!(timestamp16(at(65536)), 0);
    assert_eq!(timestamp16(at(65537)), 1);
}

#[test]
fn fragment_roundtrip() {
    let frag = Fragment { id: 42, final_flag: true, fragment_num: 0, payload: vec![1, 2, 3, 4] };
    let bytes = frag.to_bytes();
    let parsed = Fragment::from_bytes(&bytes).unwrap();
    assert_eq!(frag, parsed);
}

#[test]
fn fragment_final_flag_encoding() {
    let frag = Fragment { id: 1, final_flag: true, fragment_num: 5, payload: vec![] };
    let bytes = frag.to_bytes();
    let parsed = Fragment::from_bytes(&bytes).unwrap();
    assert!(parsed.final_flag);
    assert_eq!(parsed.fragment_num, 5);
}

#[test]
fn fragment_bytes_are_exact() {
    let frag = Fragment { id: 0x0102, final_flag: true, fragment_num: 3, payload: vec![9, 8] };
    assert_eq!(frag.to_bytes(), vec![0, 0, 0, 0, 0, 0, 1, 2, 0x80, 3, 9, 8]);
    let open = Fragment { final_flag: false, ..frag.clone() };
    assert_eq!(open.to_bytes()[8], 0);
    assert_eq!(Fragment::from_bytes(&[0; 9]).unwrap_err(), "Fragment too short");
    let wide = Fragment { id: 1, final_flag: false, fragment_num: 0x8001, payload: vec![] };
    assert_eq!(Fragment::from_bytes(&wide.to_bytes()).unwrap().fragment_num, 1);
}

#[test]
fn fragmenter_single_fragment() {
    let mut fragger = Fragmenter::new();
    let inst = instruction(vec![1, 2, 3]);
    let frags = fragger.make_fragments(&inst, 1000).unwrap();
    assert_eq!(frags.len(), 1);
    assert!(frags[0].final_flag);
}

#[test]
fn fragmenter_multi_fragment() {
    let big_diff: Vec<u8> = (0..2000).map(|i| (i % 200) as u8).collect();
    let mut fragger = Fragmenter::new();
    let inst = instruction(big_diff);
    let frags = fragger.make_fragments(&inst, 100).unwrap();
    assert!(frags.len() > 1, "Expected >1 fragments, got {}", frags.len());
    assert!(!frags[0].final_flag);
    assert!(frags.last().unwrap().final_flag);
}

#[test]
fn assembly_roundtrip() {
    let mut fragger = Fragmenter::new();
    let inst = TI {
        protocol_version: Some(MORSH_PROTOCOL_VERSION),
        old_num: Some(10),
        new_num: Some(20),
        ack_num: Some(5),
        throwaway_num: Some(3),
        diff: Some(b"hello world".to_vec()),
        chaff: None,
    };
    let frags = fragger.make_fragments(&inst, 200).unwrap();

    let mut assembler = FragmentAssembly::new();
    for frag in frags {
        let result = assembler.add_fragment(frag).unwrap();
        if let Some(reassembled) = result {
            assert_eq!(reassembled.protocol_version, Some(MORSH_PROTOCOL_VERSION));
            assert_eq!(reassembled.old_num, Some(10));
            assert_eq!(reassembled.new_num, Some(20));
            assert_eq!(reassembled.diff, Some(b"hello world".to_vec()));
            return;
        }
    }
    panic!("Assembly did not complete");
}

#[test]
fn add_chaff_works() {
    let mut inst = blank();
    add_chaff(&mut inst, 0xAB);
    assert!(inst.chaff.is_some());
    let chaff = inst.chaff.unwrap();
    assert!(!chaff.is_empty());
    assert!(chaff.len() <= CHAFF_MAX);
}

#[test]
fn chaff_is_exact() {
    let mut inst = blank();
    add_chaff(&mut inst, 2);
    assert_eq!(inst.chaff, Some(vec![0x3c, 0xda]));
    let mut none = blank();
    add_chaff(&mut none, 17);
    assert_eq!(none.chaff, None);
}

#[test]
fn fragments_assemble_in_any_order() {
    let diff = noise(3000);
    let mut fragger = Fragmenter::new();
    let inst = instruction(diff.clone());
    let mut frags = fragger.make_fragments(&inst, 200).unwrap();
    assert!(frags.len() > 10);
    frags.reverse();
    frags.swap(2, 7);
    let n = frags.len();
    let mut assembler = FragmentAssembly::new();
    for (i, frag) in frags.into_iter().enumerate() {
        let again = frag.clone();
        let got = assembler.add_fragment(frag).unwrap();
        if i + 1 < n {
            assert!(got.is_none());
            assert!(assembler.add_fragment(again).unwrap().is_none());
        } else {
            assert_eq!(got.unwrap().diff, Some(diff.clone()));
        }
    }
}

#[test]
fn fragment_ids_count_up() {
    let mut fragger = Fragmenter::new();
    let inst = instruction(vec![1]);
    assert_eq!(fragger.make_fragments(&inst, 500).unwrap()[0].id, 1);
    assert_eq!(fragger.make_fragments(&inst, 500).unwrap()[0].id, 2);
    assert_eq!(fragger.make_fragments_with_id(&inst, 500, 77).unwrap()[0].id, 77);
    assert_eq!(fragger.make_fragments(&inst, 500).unwrap()[0].id, 3);
}

#[test]
fn compressed_payloads_expand() {
    let mut fragger = Fragmenter::new();
    let inst = instruction(vec![0u8; 5000]);
    let frags = fragger.make_fragments(&inst, 1000).unwrap();
    assert_eq!(frags.len(), 1);
    assert!(frags[0].payload.len() < 200);
    assert_eq!(frags[0].payload[4], 0x78);
    let bytes = decompress(&frags[0].payload).unwrap();
    assert_eq!(TI::decode(&bytes).unwrap(), inst);
    assert_eq!(decompress(&frags[0].payload[4..]).unwrap(), bytes);
    assert!(decompress(&[0x78, 1, 2, 3]).is_err());
}

#[test]
fn cutting_is_exact() {
    let data: Vec<u8> = (0..25).collect();
    let frags = fragment_compressed(9, &data, 0x0102, 10);
    assert_eq!(frags.len(), 3);
    assert_eq!(frags[0].payload.len(), 10);
    assert_eq!(frags[2].payload.len(), 9);
    assert_eq!(frags[1].fragment_num, 1);
    assert!(frags[2].final_flag && !frags[1].final_flag);
    let joined: Vec<u8> = frags.iter().flat_map(|f| f.payload.clone()).collect();
    assert_eq!(&joined[4..], &data[..]);
}

#[test]
fn assembly_prunes() {
    let mut assembler = FragmentAssembly::new();
    let part = |id: u64, n: u16, last: bool| Fragment {
        id,
        final_flag: last,
        fragment_num: n,
        payload: vec![1],
    };
    assert!(assembler.add_fragment(part(1, 1, true)).unwrap().is_none());
    assembler.prune(2);
    assert!(assembler.add_fragment(part(1, 0, false)).unwrap().is_none());
    assert!(assembler.add_fragment(part(5, 1, true)).unwrap().is_none());
    assembler.prune(5);
    assert!(assembler.add_fragment(part(5, 0, false)).is_err());
}

#[test]
fn assembly_errors() {
    let mut assembler = FragmentAssembly::new();
    let frag = Fragment { id: 1, final_flag: true, fragment_num: 0, payload: vec![0x78, 0, 0] };
    assert!(assembler.add_fragment(frag).is_err());
    let stored = vec![0x78, 0x01, 0x01, 0x01, 0x00, 0xfe, 0xff, 0x10, 0x00, 0x11, 0x00, 0x11];
    let frag = Fragment { id: 3, final_flag: true, fragment_num: 0, payload: stored };
    assert_eq!(
        assembler.add_fragment(frag).unwrap_err(),
        "Protobuf decode error: failed to decode Protobuf message: Instruction.old_num: invalid varint"
    );
    let first = Fragment { id: 2, final_flag: true, fragment_num: 1, payload: vec![1] };
    let second = Fragment { id: 2, final_flag: false, fragment_num: 7, payload: vec![1] };
    assert!(assembler.add_fragment(first).unwrap().is_none());
    assert_eq!(assembler.add_fragment(second).unwrap_err(), "Missing fragment");
}

#[test]
fn payload_room_is_exact() {
    assert_eq!(max_fragment_payload(MTU_IPV4), 1214);
    assert_eq!(max_fragment_payload(MTU_FALLBACK), 462);
    assert_eq!(max_fragment_payload(38), 0);
    assert_eq!(max_fragment_payload(10), 0);
}

#[test]
fn initial_state() {
    let rtt = RttEstimator::new();
    assert_eq!(rtt.srtt_ms(), 50);
    assert_eq!(rtt.rttvar_ms(), 25);
    assert!(rtt.rto_ms() >= MIN_RTO_MS);
}

#[test]
fn first_sample() {
    let mut rtt = RttEstimator::new();
    rtt.update(200);
    assert_eq!(rtt.srtt_ms(), 200);
    assert_eq!(rtt.rttvar_ms(), 100);
}

#[test]
fn converging_samples() {
    let mut rtt = RttEstimator::new();
    rtt.update(100);
    rtt.update(120);
    rtt.update(110);
    assert!(
        rtt.srtt_ms() >= 100 && rtt.srtt_ms() <= 110,
        "SRTT {} out of expected range",
        rtt.srtt_ms()
    );
}

#[test]
fn rto_clamped() {
    let mut rtt = RttEstimator::new();
    rtt.update(10000);
    assert_eq!(rtt.srtt_ms(), 50);

    let mut rtt2 = RttEstimator::new();
    rtt2.update(1);
    assert!(rtt2.rto_ms() >= MIN_RTO_MS);
}

#[test]
fn send_interval_bounds() {
    let mut rtt = RttEstimator::new();
    rtt.update(10);
    assert_eq!(rtt.send_interval_ms(), SEND_INTERVAL_MIN_MS);

    let mut rtt2 = RttEstimator::new();
    rtt2.update(1000);
    assert_eq!(rtt2.send_interval_ms(), SEND_INTERVAL_MAX_MS);
}

#[test]
fn second_sample_is_exact() {
    let mut rtt = RttEstimator::new();
    rtt.update(100);
    rtt.update(180);
    assert_eq!(rtt.srtt_ms(), 110);
    assert_eq!(rtt.rttvar_ms(), 57);
    assert_eq!(rtt.rto_ms(), 338);
    rtt.update(0);
    assert_eq!(rtt.srtt_ms(), 110);
    rtt.update(5000);
    assert_eq!(rtt.rto_ms(), 1000);
}

#[test]
fn connection_nonce_sequencing() {
    let session = Session::new([1u8; 16]);
    let mut conn = Connection::new_server(session);

    assert_eq!(conn.send_seq(), 0);

    let frag = Fragment { id: 1, final_flag: true, fragment_num: 0, payload: vec![1, 2, 3] };

    let wire1 = conn.encrypt_fragment(&frag).unwrap();
    assert_eq!(conn.send_seq(), 1, "send_seq should increment after encrypt");

    let wire2 = conn.encrypt_fragment(&frag).unwrap();
    assert_eq!(conn.send_seq(), 2, "send_seq should increment again");

    assert_ne!(&wire1[..8], &wire2[..8], "Nonces should be different");
    assert_eq!(wire2[..8], [0x80, 0, 0, 0, 0, 0, 0, 1]);

    let mut client = Connection::new_client(Session::new([1u8; 16]));
    let wire3 = client.encrypt_fragment(&frag).unwrap();
    assert_eq!(wire3[..8], [0, 0, 0, 0, 0, 0, 0, 0]);
}

#[test]
fn packets_carry_timestamps() {
    let key = [5u8; 16];
    let mut a = Connection::new_client_at(Session::new(key), at(1000));
    let frag = Fragment { id: 1, final_flag: true, fragment_num: 0, payload: vec![7] };
    let wire = a.encrypt_fragment_at(&frag, at(1000)).unwrap();
    let mut reader = Session::new(key);
    let text = reader.decrypt(&wire).unwrap().text;
    assert_eq!(text[..4], [0x03, 0xe8, 0xff, 0xff]);
    assert_eq!(text[4..], frag.to_bytes()[..]);

    let mut b = Connection::new_server_at(Session::new(key), at(1010));
    assert!(b.recv_at(&wire, peer(1), at(1010)).is_err());
    let back = b.encrypt_fragment_at(&frag, at(1310)).unwrap();
    let text = reader.decrypt(&back).unwrap().text;
    assert_eq!(text[2..4], [0x05, 0x14]);
    let late = b.encrypt_fragment_at(&frag, at(2010)).unwrap();
    assert_eq!(reader.decrypt(&late).unwrap().text[2..4], [0xff, 0xff]);

    assert!(a.recv_at(&back, peer(2), at(1360)).is_err());
    assert_eq!(a.rtt().srtt_ms(), 60);
    assert_eq!(a.rtt().rttvar_ms(), 30);
}

#[test]
fn instruction_crosses_the_connection() {
    let key = [6u8; 16];
    let mut client = Connection::new_client_at(Session::new(key), at(0));
    let mut server = Connection::new_server_at(Session::new(key), at(0));
    let inst = instruction(noise(4000));
    assert_eq!(client.send(&inst).unwrap_err(), "No remote address");
    client.set_remote_addr(peer(60001));
    let (to, frags) = client.send(&inst).unwrap();
    assert_eq!(to, peer(60001));
    assert!(frags.len() >= 4);
    let mut got = None;
    for frag in &frags {
        assert!(got.is_none());
        let wire = client.encrypt_fragment_at(frag, at(20)).unwrap();
        assert!(wire.len() <= MTU_IPV4);
        got = server.recv_at(&wire, peer(5), at(25)).unwrap();
    }
    assert_eq!(got.unwrap(), inst);
    assert_eq!(server.remote_addr(), Some(peer(5)));
    assert_eq!(server.time_since_last_heard(at(30)), 5_000_000);
}

#[test]
fn server_follows_its_client() {
    let key = [8u8; 16];
    let mut client = Connection::new_client_at(Session::new(key), at(0));
    let mut server = Connection::new_server_at(Session::new(key), at(0));
    assert!(!server.has_remote());
    let frag = Fragment { id: 1, final_flag: false, fragment_num: 0, payload: vec![7] };
    let one = client.encrypt_fragment_at(&frag, at(1)).unwrap();
    assert!(server.recv_at(&one, peer(1), at(2)).unwrap().is_none());
    assert_eq!(server.remote_addr(), Some(peer(1)));
    let two = client.encrypt_fragment_at(&frag, at(3)).unwrap();
    assert!(server.recv_at(&two, peer(2), at(4)).unwrap().is_none());
    assert_eq!(server.remote_addr(), Some(peer(2)));
    assert!(server.recv_at(&[1u8; 40], peer(3), at(5)).is_err());
    assert_eq!(server.remote_addr(), Some(peer(2)));
    client.set_remote_addr(peer(9));
    let three = server.encrypt_fragment_at(&frag, at(6)).unwrap();
    assert!(client.recv_at(&three, peer(4), at(7)).unwrap().is_none());
    assert_eq!(client.remote_addr(), Some(peer(9)));
}

#[test]
fn connection_errors() {
    let key = [2u8; 16];
    let mut conn = Connection::new_client_at(Session::new(key), at(0));
    assert!(conn.recv_at(&[], peer(1), at(0)).unwrap().is_none());
    assert_eq!(
        conn.recv_at(&[0; 5], peer(1), at(0)).unwrap_err(),
        "Decryption error: Ciphertext must contain nonce and tag"
    );
    assert_eq!(
        conn.recv_at(&[0; 30], peer(1), at(0)).unwrap_err(),
        "Decryption error: Packet failed integrity check"
    );
    let mut session = Session::new(key);
    let nonce = morsh::crypto::nonce::Nonce::from_val(1);
    let short = session.encrypt(&Message::new(nonce, vec![1, 2, 3]));
    assert_eq!(
        conn.recv_at(&short, peer(1), at(0)).unwrap_err(),
        "Message too short: 3 bytes"
    );
    let stub = session.encrypt(&Message::new(nonce, vec![0; 13]));
    assert_eq!(conn.recv_at(&stub, peer(1), at(0)).unwrap_err(), "Fragment too short");
    assert_eq!(conn.send_seq(), 0);
    let huge = Fragment { id: 1, final_flag: true, fragment_num: 0, payload: vec![0; 1_048_563] };
    assert_eq!(conn.encrypt_fragment(&huge).unwrap().len(), 1_048_563 + 10 + 4 + 24);
    assert_eq!(conn.send_seq(), 1);
}

#[test]
fn the_present_is_steady() {
    let outer = std::time::Instant::now();
    let first = Instant::now();
    let inner = std::time::Instant::now();
    while inner.elapsed().as_millis() < 20 {}
    let least = inner.elapsed().as_nanos() as u64;
    let second = Instant::now();
    let most = outer.elapsed().as_nanos() as u64;
    let told = second.nanos - first.nanos;
    assert!(told >= least && told <= most, "{least} {told} {most}");
    assert_eq!(first.millis_since(second), 0);
}

#[test]
fn packets_carry_the_time_of_day() {
    let key = [8u8; 16];
    let mut conn = Connection::new_client(Session::new(key));
    let frag = Fragment { id: 1, final_flag: true, fragment_num: 0, payload: vec![1] };
    let before = timestamp16(Instant::wall_clock());
    let wire = conn.encrypt_fragment(&frag).unwrap();
    let text = Session::new(key).decrypt(&wire).unwrap().text;
    let sent = u16::from_be_bytes([text[0], text[1]]);
    assert!((0..5000).contains(&timestamp_diff(sent, before)));
    assert_eq!(text[2..4], [0xff, 0xff]);
}

#[test]
fn ports_hop_after_silence() {
    let mut conn = Connection::new_client_at(Session::new([0u8; 16]), at(0));
    assert!(!conn.should_hop_port(at(10_000)));
    assert!(conn.should_hop_port(Instant { nanos: 10_000_000_001 }));
    conn.hop_port(at(11_000));
    assert!(!conn.should_hop_port(at(20_000)));
    assert!(conn.should_hop_port(at(21_001)));
    let server = Connection::new_server_at(Session::new([0u8; 16]), at(0));
    assert!(!server.should_hop_port(at(100_000)));
}

#[test]
fn old_sockets_are_pruned() {
    let mut sockets: Vec<u32> = (0..13).collect();
    prune_sockets(&mut sockets);
    assert_eq!(sockets, (3..13).collect::<Vec<u32>>());
    prune_sockets(&mut sockets);
    assert_eq!(sockets.len(), 10);
    let mut few = vec!["a".to_string()];
    prune_sockets(&mut few);
    assert_eq!(few, vec!["a".to_string()]);
}

#[test]
fn rtt_of_a_connection_can_be_set() {
    let mut conn = Connection::new_client(Session::new([0u8; 16]));
    conn.record_rtt(80);
    assert_eq!(conn.rtt().srtt_ms(), 80);
    conn.rtt_mut().update(160);
    assert_eq!(conn.rtt().srtt_ms(), 90);
}

#[test]
fn untimed_connections_carry_instructions() {
    let key = [9u8; 16];
    let mut a = untimed::Connection::new_client_at(Session::new(key), at(0));
    let mut b = untimed::Connection::new_server_at(Session::new(key), at(0));
    let inst = instruction(noise(2000));
    assert_eq!(a.send(&inst).unwrap_err(), "No remote address");
    assert!(!a.has_remote());
    a.set_remote_addr(peer(3));
    assert_eq!(a.remote_addr(), Some(peer(3)));
    let (_, frags) = a.send(&inst).unwrap();
    let mut got = None;
    for frag in &frags {
        let wire = a.encrypt_fragment(frag).unwrap();
        assert_eq!(wire[..8], [0; 8]);
        got = b.recv_at(&wire, peer(4), at(7)).unwrap();
    }
    assert_eq!(got.unwrap(), inst);
    assert_eq!(b.remote_addr(), Some(peer(4)));
    assert_eq!(b.send(&inst).unwrap().0, peer(4));
    assert_eq!(b.time_since_last_heard(at(8)), 1_000_000);
    assert_eq!(
        b.recv_at(&[], peer(5), at(9)).unwrap_err(),
        "Decryption error: Ciphertext must contain nonce and tag"
    );
    assert_eq!(b.remote_addr(), Some(peer(4)));
    let again = a.encrypt_fragment(&frags[0]).unwrap();
    b.recv_at(&again, peer(6), at(9)).unwrap();
    assert_eq!(b.remote_addr(), Some(peer(6)));
    let mut c = untimed::Connection::new_client_at(Session::new(key), at(0));
    c.recv_at(&again, peer(6), at(9)).unwrap();
    assert!(!c.has_remote());
    assert!(a.should_hop_port(at(10_001)));
    a.hop_port(at(10_001));
    assert!(!a.should_hop_port(at(10_002)));
    a.record_rtt(70);
    assert_eq!(a.rtt().srtt_ms(), 70);
}
