use morsh::client::host_message::extract_host_message;
use morsh::client::input::EscapeFilter;
use morsh::client::input::InputAction;
use morsh::client::keys::key_bytes;
use morsh::client::keys::Arrow;
use morsh::client::keys::KeyCode;
use morsh::client::predicted::render_prediction_overlay;
use morsh::client::state::Client;
use morsh::client::state::Handshake;
use morsh::crypto::session::Session;
use morsh::network::connection::Address;
use morsh::network::connection::Connection;
use morsh::network::transport::ReceivedDiff;
use morsh::network::transport::SendState;
use morsh::network::transport::Transport;
use morsh::prediction::engine::DisplayPreference;
use morsh::prediction::engine::PredictionEngine;
use morsh::proto::client::UserMessage;
use morsh::proto::host::EchoAck;
use morsh::proto::host::HostBytes;
use morsh::proto::host::HostMessage;
use morsh::proto::host::Instruction;
use morsh::terminal::snapshot::ScreenSnapshot;
use morsh::time::Instant;

fn start() -> Instant {
    Instant { nanos: 1_000_000_000_000 }
}

fn client() -> Client {
    let mut conn = Connection::new_client_at(Session::new([3u8; 16]), start());
    conn.set_remote_addr(Address { v6: false, host: 1, port: 2, flow: 0, scope: 0 });
    Client::new(Transport::new_at(conn, start()), 80, 24, start())
}

#[test]
fn keys_send_their_bytes() {
    assert_eq!(key_bytes(KeyCode::Char('a'), false, false), b"a");
    assert_eq!(key_bytes(KeyCode::Char('c'), true, false), [3]);
    assert_eq!(key_bytes(KeyCode::Char('z'), true, true), [26]);
    assert_eq!(key_bytes(KeyCode::Char('C'), true, false), b"C");
    assert_eq!(key_bytes(KeyCode::Char('x'), false, true), b"\x1bx");
    assert_eq!(key_bytes(KeyCode::Char('\u{141}'), false, false), [0x41]);
    assert_eq!(key_bytes(KeyCode::Enter, false, false), b"\r");
    assert_eq!(key_bytes(KeyCode::Backspace, false, false), [0x7f]);
    assert_eq!(key_bytes(KeyCode::Tab, false, false), b"\t");
    assert_eq!(key_bytes(KeyCode::Esc, false, false), [0x1b]);
    assert_eq!(key_bytes(KeyCode::Up, false, false), b"\x1b[A");
    assert_eq!(key_bytes(KeyCode::Down, false, false), b"\x1b[B");
    assert_eq!(key_bytes(KeyCode::Right, false, false), b"\x1b[C");
    assert_eq!(key_bytes(KeyCode::Left, false, false), b"\x1b[D");
    assert_eq!(key_bytes(KeyCode::Home, false, false), b"\x1b[H");
    assert_eq!(key_bytes(KeyCode::End, false, false), b"\x1b[F");
    assert_eq!(key_bytes(KeyCode::PageUp, false, false), b"\x1b[5~");
    assert_eq!(key_bytes(KeyCode::PageDown, false, false), b"\x1b[6~");
    assert_eq!(key_bytes(KeyCode::Insert, false, false), b"\x1b[2~");
    assert_eq!(key_bytes(KeyCode::Delete, false, false), b"\x1b[3~");
    assert!(key_bytes(KeyCode::Other, true, true).is_empty());
}

#[test]
fn arrows_are_keys() {
    assert_eq!(key_bytes(Arrow::Up.key(), false, false), b"\x1b[A");
    assert_eq!(key_bytes(Arrow::Down.key(), false, false), b"\x1b[B");
    assert_eq!(key_bytes(Arrow::Left.key(), false, false), b"\x1b[D");
    assert_eq!(key_bytes(Arrow::Right.key(), false, false), b"\x1b[C");
}

#[test]
fn function_keys_send_their_bytes() {
    let want: [&[u8]; 12] = [
        b"\x1bOP", b"\x1bOQ", b"\x1bOR", b"\x1bOS", b"\x1b[15~", b"\x1b[17~", b"\x1b[18~",
        b"\x1b[19~", b"\x1b[20~", b"\x1b[21~", b"\x1b[23~", b"\x1b[24~",
    ];
    for n in 1..=12u8 {
        assert_eq!(key_bytes(KeyCode::F(n), false, false), want[n as usize - 1]);
    }
    assert!(key_bytes(KeyCode::F(0), false, false).is_empty());
    assert!(key_bytes(KeyCode::F(13), false, false).is_empty());
}

fn sent(action: InputAction) -> Vec<u8> {
    match action {
        InputAction::Send(bytes) => bytes,
        _ => panic!("nothing sent"),
    }
}

#[test]
fn escape_key_quits_and_passes() {
    let mut filter = EscapeFilter::new();
    assert_eq!(sent(filter.handle(vec![b'a'])), b"a");
    assert_eq!(sent(filter.handle(vec![b'.'])), b".");
    assert!(matches!(filter.handle(vec![0x1e]), InputAction::Nothing));
    assert_eq!(sent(filter.handle(vec![0x1e])), [0x1e]);
    assert!(matches!(filter.handle(vec![0x1e]), InputAction::Nothing));
    assert_eq!(sent(filter.handle(vec![b'x'])), [0x1e, b'x']);
    assert!(matches!(filter.handle(vec![0x1e]), InputAction::Nothing));
    assert_eq!(sent(filter.handle(b"\x1b[A".to_vec())), b"\x1e\x1b[A");
    assert!(matches!(filter.handle(vec![0x1e]), InputAction::Nothing));
    assert!(matches!(filter.handle(vec![0x1a]), InputAction::Nothing));
    assert_eq!(sent(filter.handle(vec![b'.'])), b".");
    assert!(matches!(filter.handle(vec![0x1e]), InputAction::Nothing));
    assert!(matches!(filter.handle(vec![b'.']), InputAction::Quit));
}

fn output(bytes: Option<&[u8]>, ack: Option<u64>) -> Instruction {
    Instruction {
        hostbytes: bytes.map(|b| HostBytes { hoststring: Some(b.to_vec()) }),
        resize: None,
        echoack: ack.map(|n| EchoAck { echo_ack_num: Some(n) }),
    }
}

#[test]
fn host_messages_are_unwrapped() {
    let msg = HostMessage {
        instruction: vec![
            output(Some(b"one "), Some(7)),
            output(None, Some(3)),
            output(Some(b"two"), None),
        ],
    };
    assert_eq!(extract_host_message(&msg.encode()), (b"one two".to_vec(), Some(7)));
    let ack = HostMessage { instruction: vec![output(None, Some(5))] };
    assert_eq!(extract_host_message(&ack.encode()), (vec![], Some(5)));
    assert_eq!(extract_host_message(b"\x1b[2Jplain"), (b"\x1b[2Jplain".to_vec(), None));
    assert_eq!(extract_host_message(b""), (vec![], None));
}

#[test]
fn predictions_are_drawn() {
    let now = start();
    let mut engine = PredictionEngine::new_at(now);
    assert!(render_prediction_overlay(&engine, 80, 24).is_none());
    engine.set_display_preference(DisplayPreference::Always);
    engine.set_predict_overwrite(true);
    assert_eq!(render_prediction_overlay(&engine, 80, 24).unwrap(), "\x1b[s\x1b[u");
    engine.new_user_byte_at('A', 2, 3, 80, 24, now);
    assert_eq!(
        render_prediction_overlay(&engine, 80, 24).unwrap(),
        "\x1b[s\x1b[3;4H\x1b[0m\x1b[4mA\x1b[0m\x1b[u"
    );
    assert_eq!(render_prediction_overlay(&engine, 80, 2).unwrap(), "\x1b[s\x1b[u");
    assert_eq!(render_prediction_overlay(&engine, 3, 24).unwrap(), "\x1b[s\x1b[u");
    engine.set_local_frame_late_acked(1);
    assert_eq!(
        render_prediction_overlay(&engine, 80, 24).unwrap(),
        "\x1b[s\x1b[3;4H\x1b[0mA\x1b[u"
    );
}

#[test]
fn a_client_opens_with_its_size() {
    let c = client();
    assert_eq!(c.transport.sender.state(), SendState::Active);
    let diff = c.pending_diff().unwrap();
    let msg = UserMessage::decode(&diff).unwrap();
    assert_eq!(msg.instruction.len(), 1);
    assert_eq!(msg.instruction[0].resize.unwrap().width, Some(80));
    assert_eq!(msg.instruction[0].resize.unwrap().height, Some(24));
}

#[test]
fn typed_keys_are_sent_once() {
    let mut c = client();
    let now = start();
    let diff = c.pending_diff().unwrap();
    c.send_diff(diff).unwrap();
    c.diff_sent(now);
    assert!(c.pending_diff().is_none());
    let snap = ScreenSnapshot::new(80, 24);
    c.on_key(&b"hi".to_vec(), &snap, 80, 24, now);
    assert_eq!(c.user_stream.len(), 3);
    assert!(c.immediate_diff(now).is_none());
    let later = now.plus_millis(250);
    let diff = c.immediate_diff(later).unwrap();
    let msg = UserMessage::decode(&diff).unwrap();
    assert_eq!(msg.instruction[0].keystroke.as_ref().unwrap().keys, Some(b"hi".to_vec()));
    let (to, frags) = c.send_diff(diff).unwrap();
    assert_eq!(to.port, 2);
    assert_eq!(frags.len(), 1);
    c.diff_sent(later);
    assert!(c.pending_diff().is_none());
    assert_eq!(c.transport.sender.state_num(), 2);
    assert_eq!(c.prediction.cursor_pos(), Some((0, 2)));
}

#[test]
fn typing_past_the_edge_is_still_sent() {
    let mut c = client();
    c.prediction.set_display_preference(DisplayPreference::Always);
    let mut snap = ScreenSnapshot::new(3, 1);
    snap.cursor_x = 1;
    c.on_key(&b"abcd".to_vec(), &snap, 3, 1, start());
    assert_eq!(c.user_stream.len(), 5);
    assert_eq!(c.prediction.cursor_pos(), Some((0, 3)));
}

#[test]
fn diffs_update_the_client() {
    let mut c = client();
    let now = start().plus_millis(40);
    c.on_error("down".to_string(), now);
    assert!(c.notifications.has_message_at(now));
    let msg = HostMessage { instruction: vec![output(Some(b"ok"), Some(9))] };
    let diff = ReceivedDiff {
        diff: msg.encode(),
        old_num: 0,
        new_num: 1,
        ack_num: 0,
        throwaway_num: 0,
    };
    assert_eq!(c.on_diff(&diff, now), b"ok");
    assert_eq!(c.prediction.local_frame_late_acked(), 9);
    assert!(!c.handshake.tick(now.plus_millis(5000)));
    c.transport.connection_mut().record_rtt(90);
    c.adapt();
    assert_eq!(c.transport.sender.send_interval_ms(), 45);
}

#[test]
fn predictions_are_held_against_the_screen() {
    let mut c = client();
    let now = start();
    c.prediction.set_display_preference(DisplayPreference::Always);
    c.prediction.set_predict_overwrite(true);
    let mut snap = ScreenSnapshot::new(80, 24);
    c.on_key(&b"A".to_vec(), &snap, 80, 24, now);
    assert!(c.prediction.is_active());
    c.prediction.set_local_frame_late_acked(1);
    snap.rows[0][0].text = "A".to_string();
    snap.cursor_x = 1;
    c.validate(&snap, now);
    assert!(!c.prediction.is_active());
    let epoch = c.prediction.prediction_epoch();
    c.on_resize(100, 30);
    assert_eq!(c.prediction.prediction_epoch(), epoch + 1);
}

#[test]
fn handshakes_are_repeated() {
    let mut c = client();
    let now = start();
    assert!(c.handshake_diff(now.plus_millis(1999)).is_none());
    let due = now.plus_millis(2000);
    let diff = c.handshake_diff(due).unwrap();
    assert_eq!(diff, c.pending_diff().unwrap());
    assert_eq!(c.handshake.retries, 1);
    assert!(c.handshake_diff(due.plus_millis(1)).is_none());
    assert_eq!(c.handshake.retries, 0);
    assert!(c.handshake_diff(due.plus_millis(2000)).is_some());
    let mut worn = Handshake { retries: 10, deadline: now };
    assert!(!worn.tick(now));
    assert_eq!(worn.retries, 0);
}

#[test]
fn silence_loses_the_connection() {
    let c = client();
    assert!(!c.connection_lost(start().plus_millis(15_000)));
    assert!(c.connection_lost(start().plus_millis(15_001)));
}
