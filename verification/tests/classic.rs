use morsh::classic::client::press;
use morsh::classic::client::Client;
use morsh::classic::server::listening_line;
use morsh::classic::server::parse_args;
use morsh::classic::server::Server;
use morsh::classic::wrapper::remote_command;
use morsh::client::input::InputAction;
use morsh::client::keys::KeyCode;
use morsh::crypto::session::Session;
use morsh::network::connection::Address;
use morsh::network::fragment::Fragment;
use morsh::network::untimed::Connection;
use morsh::network::untimed::Transport;
use morsh::proto::client::UserMessage;
use morsh::time::Instant;

fn start() -> Instant {
    Instant { nanos: 1_000_000_000_000 }
}

fn strings(list: &[&str]) -> Vec<String> {
    list.iter().map(|s| s.to_string()).collect()
}

fn address() -> Address {
    Address { v6: false, host: 0x7f00_0001, port: 60001, flow: 0, scope: 0 }
}

fn client() -> Client {
    let mut connection = Connection::new_client_at(Session::new([7; 16]), start());
    connection.set_remote_addr(address());
    Client::new(Transport::new_at(connection, start()), 100, 40, start()).unwrap()
}

fn server() -> Server {
    let mut connection = Connection::new_server_at(Session::new([7; 16]), start());
    connection.set_remote_addr(address());
    Server::new(Transport::new_at(connection, start()), start()).unwrap()
}

fn packets(t: &mut Transport, out: Result<(Address, Vec<Fragment>), String>) -> Vec<Vec<u8>> {
    let (to, fragments) = out.unwrap();
    assert_eq!(to, address());
    fragments.iter().map(|f| t.connection.encrypt_fragment(f).unwrap()).collect()
}

fn sent(action: InputAction) -> Vec<u8> {
    match action {
        InputAction::Send(bytes) => bytes,
        _ => panic!("nothing is sent"),
    }
}

#[test]
fn classic_keys_send_their_bytes() {
    assert!(matches!(press(KeyCode::Char('c'), true, false), InputAction::Quit));
    assert_eq!(sent(press(KeyCode::Char('c'), false, false)), b"c");
    assert_eq!(sent(press(KeyCode::Char('a'), true, false)), vec![1]);
    assert_eq!(sent(press(KeyCode::Char('~'), true, true)), vec![0x1e]);
    assert_eq!(sent(press(KeyCode::Char('x'), false, true)), vec![0x1b, b'x']);
    assert_eq!(sent(press(KeyCode::F(5), true, false)), b"\x1b[15~");
    assert!(matches!(press(KeyCode::F(13), false, false), InputAction::Nothing));
}

#[test]
fn classic_arguments_are_read() {
    let options = parse_args(&strings(&["-p", "60001", "bash", "-a", "::1", "-l"])).unwrap();
    assert_eq!(options.port, 60001);
    assert_eq!(options.bind_addr, "::1");
    assert_eq!(options.command_args, strings(&["bash", "-l"]));
    let options = parse_args(&strings(&["-p", "1", "-p", "2"])).unwrap();
    assert_eq!(options.port, 2);
    assert_eq!(options.bind_addr, "0.0.0.0");
    assert!(options.command_args.is_empty());
    assert_eq!(
        parse_args(&strings(&["-p", "x"])).unwrap_err(),
        "Invalid port: invalid digit found in string"
    );
    assert_eq!(
        parse_args(&strings(&["-p", "65536"])).unwrap_err(),
        "Invalid port: number too large to fit in target type"
    );
    assert_eq!(
        parse_args(&strings(&["-p", ""])).unwrap_err(),
        "Invalid port: cannot parse integer from empty string"
    );
    assert_eq!(parse_args(&strings(&["a", "-p"])).unwrap_err(), "Missing value for -p");
    assert_eq!(parse_args(&strings(&["-a"])).unwrap_err(), "Missing value for -a");
}

#[test]
fn classic_lines_are_exact() {
    assert_eq!(listening_line("0.0.0.0", 60001, "key"), "MOSH CONNECT 0.0.0.0 60001 key");
    assert_eq!(remote_command(&vec![], "ssh"), "mosh-server -s");
    assert_eq!(remote_command(&vec![], "any"), "mosh-server -a 0.0.0.0");
    assert_eq!(
        remote_command(&strings(&["top", "-d", "1"]), "10.0.0.1"),
        "mosh-server -e top -d 1 -a 10.0.0.1"
    );
}

#[test]
fn classic_keys_reach_the_server() {
    let mut c = client();
    let mut s = server();
    let first = c.pending_diff().unwrap();
    let out = c.send_diff(first.clone());
    let wire = packets(&mut c.transport, out);
    c.diff_sent(start());
    assert!(c.pending_diff().is_none());
    assert_eq!(c.transport.sender.state_num(), 1);
    let mut got = None;
    for packet in &wire {
        got = s.transport.recv_diff_at(packet, address(), start()).unwrap();
    }
    let diff = got.unwrap();
    assert_eq!(diff.diff, first);
    assert_eq!((diff.old_num, diff.new_num, diff.ack_num), (0, 1, 0));
    assert_eq!(s.transport.receiver.remote_state_num(), 1);
    let msg = UserMessage::decode(&diff.diff).unwrap();
    assert_eq!(msg.instruction.len(), 1);
    assert!(s.transport.recv_diff_at(b"too short", address(), start()).is_err());

    c.on_key(&b"ls".to_vec(), 100, 40, start());
    assert_eq!(c.prediction.cursor_pos(), Some((0, 2)));
    let diff = c.pending_diff().unwrap();
    let msg = UserMessage::decode(&diff).unwrap();
    assert_eq!(msg.instruction[0].keystroke.as_ref().unwrap().keys, Some(b"ls".to_vec()));
    c.on_resize(20, 10).unwrap();
    assert_eq!(c.terminal_state.dimensions(), (20, 10));
    assert_eq!(UserMessage::decode(&c.pending_diff().unwrap()).unwrap().instruction.len(), 2);
}

#[test]
fn classic_servers_learn_their_client() {
    let mut c = client();
    let connection = Connection::new_server_at(Session::new([7; 16]), start());
    let mut s = Server::new(Transport::new_at(connection, start()), start()).unwrap();
    assert_eq!(s.send_update(b"x".to_vec()).unwrap_err(), "No remote address");
    let first = c.pending_diff().unwrap();
    let out = c.send_diff(first);
    let elsewhere = Address { port: 9, ..address() };
    for packet in packets(&mut c.transport, out) {
        s.transport.recv_diff_at(&packet, elsewhere, start()).unwrap();
    }
    assert_eq!(s.send_update(b"x".to_vec()).unwrap().0, elsewhere);
    assert!(s.transport.recv_diff_at(b"stranger", address(), start()).is_err());
    assert_eq!(s.transport.connection.remote_addr(), Some(elsewhere));
}

#[test]
fn classic_updates_are_spaced() {
    let mut s = server();
    s.on_output(b"hello");
    assert!(s.due_update(start().plus_millis(49)).is_none());
    let diff = s.due_update(start().plus_millis(50)).unwrap();
    let out = s.send_update(diff.clone());
    assert!(!packets(&mut s.transport, out).is_empty());
    s.update_sent(start().plus_millis(50));
    assert!(s.due_update(start().plus_millis(1000)).map_or(true, |d| d != diff));
    s.on_output(b"!");
    assert!(s.due_update(start().plus_millis(99)).is_none());

    let mut c = client();
    c.on_output(&diff, start());
    assert_eq!(c.terminal_state.snapshot().cell(0, 0).unwrap().text, "h");
    assert_eq!(c.terminal_state.snapshot().cursor_x, 5);
}

#[test]
fn classic_clients_hop() {
    let mut c = client();
    let later = start().plus_millis(10_001);
    assert!(!c.transport.should_hop_port(start().plus_millis(10_000)));
    assert!(c.transport.should_hop_port(later));
    c.transport.hop_port(later);
    assert!(!c.transport.should_hop_port(later));
    assert!(!server().transport.should_hop_port(later));
}
