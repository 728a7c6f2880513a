use morsh::server::options::connect_line;
use morsh::words::explain_port;
use morsh::words::parse_port;
use morsh::words::split_lines;
use morsh::words::split_words;
use morsh::words::trim_newlines;
use morsh::wrapper::connect::parse_connect_line;
use morsh::wrapper::connect::server_address;
use morsh::wrapper::remote::build_remote_cmd;
use morsh::wrapper::remote::build_server_args;
use morsh::wrapper::remote::cmd_quote;
use morsh::wrapper::remote::collect_locale_vars;
use morsh::wrapper::remote::locale_names;
use morsh::wrapper::remote::probed_shell;
use morsh::wrapper::remote::pwsh_quote;
use morsh::wrapper::remote::render_remote_command;
use morsh::wrapper::remote::resolve_remote_shell_value;
use morsh::wrapper::remote::LaunchOptions;
use morsh::wrapper::remote::RemoteShell;
use morsh::wrapper::ssh::bind_choice;
use morsh::wrapper::ssh::first_step;
use morsh::wrapper::ssh::hostname;
use morsh::wrapper::ssh::key_paths;
use morsh::wrapper::ssh::mode_named;
use morsh::wrapper::ssh::next_step;
use morsh::wrapper::ssh::parse_user_host;
use morsh::wrapper::ssh::preferred_address;
use morsh::wrapper::ssh::ssh_address;
use morsh::wrapper::ssh::ssh_args;
use morsh::wrapper::ssh::tilde_expand;
use morsh::wrapper::ssh::BindChoice;
use morsh::wrapper::ssh::SshMode;
use morsh::wrapper::ssh::SshStep;

fn strings(list: &[&str]) -> Vec<String> {
    list.iter().map(|s| s.to_string()).collect()
}

fn pairs(list: &[(&str, &str)]) -> Vec<(String, String)> {
    list.iter().map(|(a, b)| (a.to_string(), b.to_string())).collect()
}

#[test]
fn words_are_split_at_any_space() {
    assert_eq!(split_words("  a\tbc \u{3000}d\r\n"), strings(&["a", "bc", "d"]));
    assert_eq!(split_words(" \n"), Vec::<String>::new());
    let text = "x\u{85}y\u{a0}z\u{2003}w\u{200b}v\u{feff}";
    let want: Vec<String> = text.split_whitespace().map(String::from).collect();
    assert_eq!(split_words(text), want);
}

#[test]
fn trailing_newlines_are_trimmed() {
    assert_eq!(trim_newlines("Linux\n\n"), "Linux");
    assert_eq!(trim_newlines("\na\nb"), "\na\nb");
    assert_eq!(trim_newlines("\n"), "");
    assert_eq!(trim_newlines("a\r\n"), "a\r");
}

#[test]
fn ports_are_read_as_numbers_are() {
    for text in [
        "0", "22", "+22", "65535", "65536", "007", "", "+", "-1", "-0", "1a", "++1", " 1", "99999x",
        "123456", "6553x6", "+99999", "000000x", "\u{661}", "655360",
    ] {
        let want = text.parse::<u16>();
        assert_eq!(parse_port(text), want.clone().ok(), "{text}");
        if let Err(e) = want {
            assert_eq!(explain_port(text), e.to_string(), "{text}");
        }
    }
}

#[test]
fn connect_lines_are_read() {
    let info = parse_connect_line("MOSH CONNECT 60001 abc def").unwrap();
    assert_eq!((info.port, info.key.as_str()), (60001, "abc"));
    assert!(parse_connect_line("MOSH CONNECT 60001").is_none());
    assert!(parse_connect_line("MOSH CONNECT 70000 abc").is_none());
    assert!(parse_connect_line(" MOSH CONNECT 60001 abc").is_none());
    assert!(parse_connect_line("MOSH CONNECTION ID: 1").is_none());
    let line = connect_line(5, "QUFBQUFBQUFBQUFBQUFBQQ");
    let info = parse_connect_line(&line).unwrap();
    assert_eq!((info.port, info.key.as_str()), (5, "QUFBQUFBQUFBQUFBQUFBQQ"));
    assert_eq!(server_address("1.2.3.4", 5), "1.2.3.4:5");
}

#[test]
fn shells_are_named() {
    assert_eq!(resolve_remote_shell_value("auto").unwrap(), None);
    assert_eq!(resolve_remote_shell_value("bash").unwrap(), Some(RemoteShell::Posix));
    assert_eq!(resolve_remote_shell_value("sh").unwrap(), Some(RemoteShell::Posix));
    assert_eq!(resolve_remote_shell_value("posix").unwrap(), Some(RemoteShell::Posix));
    assert_eq!(resolve_remote_shell_value("cmd.exe").unwrap(), Some(RemoteShell::Cmd));
    assert_eq!(resolve_remote_shell_value("cmd").unwrap(), Some(RemoteShell::Cmd));
    assert_eq!(resolve_remote_shell_value("pwsh").unwrap(), Some(RemoteShell::PowerShell));
    assert_eq!(resolve_remote_shell_value("powershell").unwrap(), Some(RemoteShell::PowerShell));
    assert_eq!(
        resolve_remote_shell_value("fish").unwrap_err(),
        "error: unknown --remote-shell 'fish' (expected auto, posix, cmd, or powershell)"
    );
    assert_eq!(probed_shell(true, "Linux"), RemoteShell::Posix);
    assert_eq!(probed_shell(true, ""), RemoteShell::Cmd);
    assert_eq!(probed_shell(false, "Linux"), RemoteShell::Cmd);
}

#[test]
fn locale_variables_are_collected() {
    let names = locale_names();
    assert_eq!(names.len(), 14);
    assert_eq!((names[0].as_str(), names[13].as_str()), ("LANG", "LC_ALL"));
    let mut values: Vec<Option<String>> = names.iter().map(|_| None).collect();
    values[0] = Some("de".to_string());
    values[3] = Some(String::new());
    assert_eq!(collect_locale_vars(&values), pairs(&[("LANG", "de"), ("LC_TIME", "")]));
}

#[test]
fn quoting_is_exact() {
    assert_eq!(cmd_quote("plain"), "plain");
    assert_eq!(cmd_quote("a b"), "\"a b\"");
    assert_eq!(cmd_quote("a\t\"b\""), "\"a\t\"\"b\"\"\"");
    assert_eq!(cmd_quote("\"x\""), "\"x\"");
    assert_eq!(pwsh_quote("it's"), "'it''s'");
    assert_eq!(pwsh_quote(""), "''");
}

#[test]
fn server_arguments_are_exact() {
    let args = build_server_args(
        "srv",
        &Some("1.2.3.4".to_string()),
        &Some("/tmp/log".to_string()),
        true,
        &strings(&["ls", "-l"]),
        &pairs(&[("LANG", "C")]),
    );
    assert_eq!(
        args,
        strings(&[
            "srv", "new", "-i", "1.2.3.4", "-l", "LANG=C", "--log-file", "/tmp/log", "-D", "-e",
            "ls", "-l"
        ])
    );
    let args = build_server_args("srv", &None, &None, false, &vec![], &vec![]);
    assert_eq!(args, strings(&["srv", "new", "-s"]));
}

#[test]
fn remote_commands_are_exact() {
    let one = strings(&["a", "b c"]);
    let two = Some(strings(&["d"]));
    let log = Some("de'bug".to_string());
    let vars = pairs(&[("LANG", "C"), ("LC_ALL", "")]);
    let render = |shell, second: &Option<Vec<String>>, log: &Option<String>, vars: &Vec<_>| {
        render_remote_command(shell, &one, second, log, vars)
    };
    assert_eq!(
        render(RemoteShell::Posix, &two, &log, &vars),
        "export LANG=C; (env RUST_LOG=de'bug a b c 2>/dev/null) || d"
    );
    assert_eq!(
        render(RemoteShell::Posix, &two, &None, &vec![]),
        "export LC_ALL=C.UTF-8; (a b c 2>/dev/null) || d"
    );
    assert_eq!(
        render(RemoteShell::Posix, &None, &log, &vec![]),
        "export LC_ALL=C.UTF-8; env RUST_LOG=de'bug a b c"
    );
    assert_eq!(
        render(RemoteShell::Posix, &None, &None, &vec![]),
        "export LC_ALL=C.UTF-8; a b c"
    );
    assert_eq!(
        render(RemoteShell::Cmd, &two, &log, &vars),
        "set \"RUST_LOG=de'bug\" && ((a \"b c\" 2>nul) || d)"
    );
    assert_eq!(render(RemoteShell::Cmd, &None, &None, &vars), "a \"b c\"");
    assert_eq!(
        render(RemoteShell::PowerShell, &two, &log, &vars),
        "$env:RUST_LOG='de''bug'; & 'a' 'b c' 2>$null; if ($LASTEXITCODE -ne 0) { & 'd' }"
    );
    assert_eq!(render(RemoteShell::PowerShell, &None, &None, &vars), "& 'a' 'b c'");
}

#[test]
fn launch_commands_fall_back() {
    let options = |path: &str| LaunchOptions {
        server_path: path.to_string(),
        server_log_file: None,
        no_daemonize: false,
        command: vec![],
    };
    assert_eq!(
        build_remote_cmd(&options("morsh-server"), &None, RemoteShell::Cmd, &None, &vec![]),
        "(morsh-server new -s 2>nul) || mosh-server new -s"
    );
    assert_eq!(
        build_remote_cmd(&options("other"), &None, RemoteShell::Cmd, &None, &vec![]),
        "other new -s"
    );
}

#[test]
fn ssh_modes_are_named() {
    assert_eq!(SshMode::from_str("AUTO").unwrap(), SshMode::Auto);
    assert_eq!(SshMode::from_str("Russh").unwrap(), SshMode::Russh);
    assert_eq!(SshMode::from_str("system").unwrap(), SshMode::System);
    assert_eq!(
        SshMode::from_str("PuTTY").unwrap_err(),
        "unknown SSH mode 'putty'. Use 'auto', 'russh', or 'system'"
    );
    assert!(mode_named("AUTO".to_string()).is_err());
}

#[test]
fn ssh_steps_follow_the_mode() {
    assert_eq!(first_step(SshMode::System, true), SshStep::System);
    assert_eq!(first_step(SshMode::Auto, true), SshStep::BuiltIn);
    assert_eq!(first_step(SshMode::Auto, false), SshStep::System);
    assert_eq!(first_step(SshMode::Russh, true), SshStep::BuiltIn);
    assert_eq!(first_step(SshMode::Russh, false), SshStep::NoKey);
    assert_eq!(next_step(SshMode::Auto), SshStep::System);
    assert_eq!(next_step(SshMode::Russh), SshStep::Failed);
}

#[test]
fn hosts_are_taken_apart() {
    let split = |s: &str| parse_user_host(s);
    assert_eq!(split("me@host"), ("me".to_string(), "host".to_string()));
    assert_eq!(split("a@b@c"), ("a@b".to_string(), "c".to_string()));
    assert_eq!(split("host"), ("root".to_string(), "host".to_string()));
    assert_eq!(hostname("me@host:22"), "host");
    assert_eq!(hostname("host"), "host");
    assert_eq!(hostname("a@b@c:1:2"), "c");
    assert_eq!(ssh_address("host"), "host:22");
    assert_eq!(ssh_address("host:2222"), "host:2222:2222");
    assert_eq!(ssh_address("host:x"), "host:x:22");
    assert_eq!(ssh_address("22"), "22:22");
}

#[test]
fn addresses_prefer_the_old_protocol() {
    assert_eq!(preferred_address(&vec![false, true, true]), Some(1));
    assert_eq!(preferred_address(&vec![false, false]), Some(0));
    assert_eq!(preferred_address(&vec![]), None);
    assert!(matches!(bind_choice("any"), BindChoice::Any));
    assert!(matches!(bind_choice("ssh"), BindChoice::Ssh));
    assert!(matches!(bind_choice("::1"), BindChoice::Given(ip) if ip == "::1"));
    assert_eq!(bind_choice("any").server_address().unwrap(), "0.0.0.0");
    assert_eq!(bind_choice("any").client_address(), None);
    assert_eq!(bind_choice("ssh").server_address(), None);
    assert_eq!(bind_choice("ssh").client_address(), None);
    assert_eq!(bind_choice("::1").server_address().unwrap(), "::1");
    assert_eq!(bind_choice("::1").client_address().unwrap(), "::1");
}

#[test]
fn ssh_arguments_and_keys() {
    assert_eq!(
        ssh_args("ssh -p 22", "host", "run it"),
        strings(&["ssh", "-p", "22", "host", "run it"])
    );
    let home = Some("/home/me".to_string());
    assert_eq!(tilde_expand("~/x", &home), "/home/me/x");
    assert_eq!(tilde_expand("~/x", &None), "~/x");
    assert_eq!(tilde_expand("~x", &home), "~x");
    assert_eq!(
        key_paths(&home),
        strings(&[
            "/home/me/.ssh/id_ed25519",
            "/home/me/.ssh/id_rsa",
            "/home/me/.ssh/id_ecdsa",
            "/home/me/.ssh/identity"
        ])
    );
}

#[test]
fn lines_are_split_as_usual() {
    for text in ["", "a", "a\n", "a\nb", "a\r\nb\r\n", "\n\n", "a\r", "\r\n", "a\n\r", "x\r\r\ny", "\u{e9}\n"] {
        let want: Vec<String> = text.lines().map(|line| line.to_string()).collect();
        assert_eq!(split_lines(text), want, "{text:?}");
    }
}
