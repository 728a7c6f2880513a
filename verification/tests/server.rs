use morsh::crypto::session::Session;
use morsh::network::connection::Address;
use morsh::network::connection::Connection;
use morsh::network::transport::ReceivedDiff;
use morsh::network::transport::SendState;
use morsh::network::transport::Transport;
use morsh::proto::client::Instruction;
use morsh::proto::client::Keystroke;
use morsh::proto::client::ResizeMessage;
use morsh::proto::client::UserMessage;
use morsh::server::daemon::command_line;
use morsh::server::daemon::start_mode;
use morsh::server::daemon::StartMode;
use morsh::server::options::choose_port;
use morsh::server::options::choose_shell;
use morsh::server::options::connect_line;
use morsh::server::options::desired_ip;
use morsh::server::options::parse;
use morsh::server::options::parse_locale_var;
use morsh::server::options::ssh_connection_ip;
use morsh::server::options::Cli;
use morsh::server::options::NewSubcommand;
use morsh::server::pty::client_actions;
use morsh::server::pty::initial_size;
use morsh::server::pty::plan_pty;
use morsh::server::pty::requested_size;
use morsh::server::pty::ClientAction;
use morsh::server::pty::PtySize;
use morsh::server::state::Server;
use morsh::terminal::terminal::CellReading;
use morsh::terminal::terminal::Reading;
use morsh::time::Instant;

fn start() -> Instant {
    Instant { nanos: 1_000_000_000_000 }
}

fn strings(list: &[&str]) -> Vec<String> {
    list.iter().map(|s| s.to_string()).collect()
}

fn keys(bytes: &[u8]) -> Instruction {
    Instruction { keystroke: Some(Keystroke { keys: Some(bytes.to_vec()) }), resize: None }
}

fn resize(width: Option<i32>, height: Option<i32>) -> Instruction {
    Instruction { keystroke: None, resize: Some(ResizeMessage { width, height }) }
}

fn reading(text: &str) -> Option<Reading> {
    Some(Reading {
        cursor: None,
        cursor_visible: None,
        colors: None,
        rows: vec![text
            .chars()
            .map(|c| CellReading { graphemes: vec![c], style: None })
            .collect()],
    })
}

fn server() -> Server {
    let mut conn = Connection::new_server_at(Session::new([3u8; 16]), start());
    conn.set_remote_addr(Address { v6: false, host: 1, port: 2, flow: 0, scope: 0 });
    Server::new(
        Transport::new_at(conn, start()),
        PtySize { rows: 24, cols: 80 },
        &reading(""),
    )
}

#[test]
fn locale_variables_are_split() {
    assert_eq!(
        parse_locale_var("LANG=a=b").unwrap(),
        ("LANG".to_string(), "a=b".to_string())
    );
    assert_eq!(parse_locale_var("=").unwrap(), (String::new(), String::new()));
    assert_eq!(
        parse_locale_var("LANG").unwrap_err(),
        "morsh-server: -l argument must be NAME=VALUE, got 'LANG'"
    );
}

#[test]
fn command_lines_become_options() {
    let cli = |vars: &[&str]| Cli {
        command: Some(NewSubcommand::New),
        port: None,
        bind_addr: Some("1.2.3.4".to_string()),
        use_ssh_connection: true,
        no_daemonize: false,
        locale_vars: strings(vars),
        log_file: None,
        color_count: Some(256),
        command_args: strings(&["ls"]),
    };
    let options = parse(cli(&["A=1", "B=2"])).unwrap();
    assert_eq!(options.port, 0);
    assert_eq!(options.locale_vars[1], ("B".to_string(), "2".to_string()));
    assert_eq!(options.command_args, strings(&["ls"]));
    assert!(options.use_ssh_connection && !options.no_daemonize);
    assert!(parse(cli(&["A=1", "B", "C"])).unwrap_err().ends_with("got 'B'"));
}

#[test]
fn ssh_connection_tells_the_address() {
    assert_eq!(ssh_connection_ip("1.1.1.1 5 10.0.0.7 22").unwrap(), "10.0.0.7");
    assert_eq!(ssh_connection_ip("a b ::ffff:10.0.0.7 22").unwrap(), "10.0.0.7");
    assert_eq!(ssh_connection_ip("a\tb  fe80::1").unwrap(), "fe80::1");
    assert!(ssh_connection_ip("a b").is_none());
    assert!(ssh_connection_ip("").is_none());
}

#[test]
fn environment_decides() {
    let five = Some("5".to_string());
    assert_eq!(choose_port(1, true, &five), 5);
    assert_eq!(choose_port(1, false, &five), 1);
    assert_eq!(choose_port(1, true, &Some("x".to_string())), 1);
    assert_eq!(choose_port(1, true, &None), 1);
    assert_eq!(choose_shell(&strings(&["vi", "f"]), None, false), "vi");
    assert_eq!(choose_shell(&vec![], Some("zsh".to_string()), true), "zsh");
    assert_eq!(choose_shell(&vec![], None, false), "/bin/sh");
    assert_eq!(choose_shell(&vec![], None, true), "cmd.exe");
    let given = Some("10.0.0.1".to_string());
    let ssh = Some("1.1.1.1 5 ::ffff:10.0.0.7 22".to_string());
    assert_eq!(desired_ip(&given, &ssh), given);
    assert_eq!(desired_ip(&given, &None), given);
    assert_eq!(desired_ip(&None, &ssh).unwrap(), "10.0.0.7");
    assert_eq!(desired_ip(&None, &Some("odd".to_string())), None);
    assert_eq!(desired_ip(&None, &None), None);
}

#[test]
fn connect_line_is_exact() {
    assert_eq!(
        connect_line(60001, "AAAAAAAAAAAAAAAAAAAAAA"),
        "MOSH CONNECT 60001 AAAAAAAAAAAAAAAAAAAAAA"
    );
}

#[test]
fn servers_detach_unless_told_not_to() {
    assert_eq!(start_mode(false, false), StartMode::Detach);
    assert_eq!(start_mode(true, false), StartMode::Foreground);
    assert_eq!(start_mode(false, true), StartMode::Daemon);
    assert_eq!(start_mode(true, true), StartMode::Daemon);
}

#[test]
fn daemons_repeat_their_command_line() {
    assert_eq!(
        command_line("C:\\Program Files\\m.exe", &strings(&["new", "-l", "A=b c"])),
        "\"C:\\Program Files\\m.exe\" new -l \"A=b c\""
    );
    assert_eq!(command_line("m", &vec![]), "m");
}

#[test]
fn sizes_are_requested() {
    let size = |w, h| requested_size(&ResizeMessage { width: w, height: h });
    assert_eq!(size(Some(120), Some(40)), PtySize { rows: 40, cols: 120 });
    assert_eq!(size(None, None), PtySize { rows: 24, cols: 80 });
    assert_eq!(size(Some(-1), Some(65537)), PtySize { rows: 1, cols: 65535 });
    let msg = UserMessage {
        instruction: vec![resize(Some(9), None), keys(b"a"), resize(None, Some(3)), keys(b"b")],
    };
    assert_eq!(initial_size(&msg.encode()), PtySize { rows: 3, cols: 80 });
    assert_eq!(initial_size(&[]), PtySize { rows: 24, cols: 80 });
    assert_eq!(initial_size(&[0xff]), PtySize { rows: 24, cols: 80 });
}

#[test]
fn client_actions_keep_their_order() {
    let both = Instruction { resize: Some(ResizeMessage { width: Some(1), height: Some(2) }), ..keys(b"b") };
    let msg = UserMessage { instruction: vec![keys(b"a"), both, keys(b"")] };
    let actions = client_actions(&msg);
    assert_eq!(actions.len(), 4);
    assert!(matches!(&actions[0], ClientAction::Write(b) if b == b"a"));
    assert!(matches!(&actions[1], ClientAction::Write(b) if b == b"b"));
    assert!(matches!(&actions[2], ClientAction::Resize(s) if *s == PtySize { rows: 2, cols: 1 }));
    assert!(matches!(&actions[3], ClientAction::Write(b) if b.is_empty()));
}

#[test]
fn programs_are_planned() {
    let vars = vec![("LC_ALL".to_string(), "C".to_string())];
    let plan = plan_pty("zsh", &vec![], &vars, "1.0", false);
    assert_eq!(plan.program, "zsh");
    assert!(plan.args.is_empty());
    let env: Vec<(&str, &str)> = plan.env.iter().map(|(a, b)| (a.as_str(), b.as_str())).collect();
    assert_eq!(
        env,
        vec![
            ("TERM", "xterm-256color"),
            ("LANG", "en_US.UTF-8"),
            ("MORSH", "1.0"),
            ("LC_ALL", "C")
        ]
    );
    let plan = plan_pty("zsh", &strings(&["ls", "-l"]), &vec![], "1.0", false);
    assert_eq!((plan.program.as_str(), plan.args), ("/bin/sh", strings(&["-c", "ls -l"])));
    let plan = plan_pty("zsh", &strings(&["dir"]), &vec![], "1.0", true);
    assert_eq!((plan.program.as_str(), plan.args), ("cmd.exe", strings(&["/c", "dir"])));
}

#[test]
fn updates_bring_the_client_up_to_date() {
    let mut s = server();
    assert_eq!(s.transport.sender.state(), SendState::Active);
    let text = reading("hello");
    let update = s.pending_update(&text).unwrap();
    assert!(String::from_utf8(update.clone()).unwrap().contains("hello"));
    let (to, frags) = s.send_update(update).unwrap();
    assert_eq!((to.port, frags.len()), (2, 1));
    assert!(s.pending_update(&text).is_some());
    s.update_sent(&text, start());
    assert_eq!(s.client_assumed_state.rows[0][0].text, "h");
    assert_eq!(s.transport.sender.state_num(), 1);
    let again = s.pending_update(&text).unwrap_or_default();
    assert!(again.len() < 10);
}

#[test]
fn resized_terminals_are_redrawn() {
    let mut s = server();
    s.resize(PtySize { rows: 2, cols: 5 });
    assert_eq!(s.terminal_state.dimensions(), (5, 2));
    let update = String::from_utf8(s.pending_update(&reading("x")).unwrap()).unwrap();
    assert!(update.contains("\x1b[2J"));
}

fn received(diff: Vec<u8>) -> ReceivedDiff {
    ReceivedDiff { diff, old_num: 0, new_num: 1, ack_num: 0, throwaway_num: 0 }
}

#[test]
fn diffs_ask_for_actions() {
    let s = server();
    let msg = UserMessage { instruction: vec![keys(b"a")] };
    assert_eq!(s.on_diff(&received(msg.encode())).unwrap().len(), 1);
    assert_eq!(s.on_diff(&received(vec![])).unwrap().len(), 0);
    assert!(s.on_diff(&received(vec![0xff])).is_none());
    assert!(!s.ended());
}

#[test]
fn diffs_are_acknowledged_at_once() {
    assert_eq!(received(vec![1]).owed_ack(), Some(1));
    assert_eq!(received(vec![]).owed_ack(), None);
}

#[test]
fn keepalives_are_due() {
    let mut s = server();
    s.transport.mark_sent(start());
    assert!(!s.keepalive_due(start().plus_millis(2000)));
    assert!(s.keepalive_due(start().plus_millis(2001)));
}
