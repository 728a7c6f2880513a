//! The options of the server, and what follows from them and the environment.

use crate::text;
use crate::text::push_decimal;
use crate::words;
use crate::words::chars_of;
use crate::words::find_first;
use crate::words::has_prefix;
use crate::words::parse_port;
use crate::words::split_words;
use crate::words::string_of;
use vstd::prelude::*;

verus! {

/// What the server may be told to do.
#[derive(Debug, Clone, Copy, PartialEq, Eq, Structural)]
pub enum NewSubcommand {
    /// Start a new server, which it does anyway.
    New,
}

/// The command line as it was given.
#[derive(Debug)]
pub struct Cli {
    /// What to do.
    pub command: Option<NewSubcommand>,
    /// The port to bind to.
    pub port: Option<u16>,
    /// The address to bind to.
    pub bind_addr: Option<String>,
    /// Whether to bind to the address of the SSH connection.
    pub use_ssh_connection: bool,
    /// Whether to stay in the foreground.
    pub no_daemonize: bool,
    /// Locale-related variables, each as `NAME=VALUE`.
    pub locale_vars: Vec<String>,
    /// Where to write logs.
    pub log_file: Option<String>,
    /// The number of colors of the terminal, which is ignored.
    pub color_count: Option<u32>,
    /// The command and arguments to run.
    pub command_args: Vec<String>,
}

/// The options of the server.
#[derive(Debug)]
pub struct CliOptions {
    pub port: u16,
    pub bind_addr: Option<String>,
    pub use_ssh_connection: bool,
    pub no_daemonize: bool,
    pub log_file: Option<String>,
    pub locale_vars: Vec<(String, String)>,
    pub command_args: Vec<String>,
}

/// The name and the value in `NAME=VALUE`; the value starts after the first equals sign.
pub open spec fn locale_var_of(s: Seq<char>) -> Option<(Seq<char>, Seq<char>)> {
    let n = words::first_at(s, '=');
    if n < s.len() {
        Some((s.take(n), s.skip(n + 1)))
    } else {
        None
    }
}

/// A message for a variable without an equals sign.
pub open spec fn locale_error(s: Seq<char>) -> Seq<char> {
    "morsh-server: -l argument must be NAME=VALUE, got '"@ + s + "'"@
}

/// Splits `NAME=VALUE`.
pub fn parse_locale_var(val: &str) -> (res: Result<(String, String), String>)
    ensures
        match res {
            Ok((name, value)) => locale_var_of(val@) == Some((name@, value@)),
            Err(e) => locale_var_of(val@) is None && e@ == locale_error(val@),
        },
{
    let chars = chars_of(val);
    let n: usize = find_first(&chars, '=');
    if n < chars.len() {
        let name = string_of(&chars, 0, n);
        let value = string_of(&chars, n + 1, chars.len());
        assert(name@ =~= val@.take(n as int));
        assert(value@ =~= val@.skip(n + 1));
        Ok((name, value))
    } else {
        let mut e = "morsh-server: -l argument must be NAME=VALUE, got '".to_owned();
        e.push_str(val);
        e.push_str("'");
        Err(e)
    }
}

/// Whether every variable has an equals sign.
pub open spec fn locale_vars_parse(list: Seq<Seq<char>>) -> bool {
    forall|i: int| 0 <= i < list.len() ==> locale_var_of(#[trigger] list[i]) is Some
}

/// The names and values of variables.
pub open spec fn locale_vars_of(list: Seq<Seq<char>>) -> Seq<(Seq<char>, Seq<char>)> {
    Seq::new(list.len(), |i: int| locale_var_of(list[i])->Some_0)
}

/// The options for a command line. The first variable that is not of the form `NAME=VALUE` is
/// refused.
pub fn parse(cli: Cli) -> (res: Result<CliOptions, String>)
    ensures
        match res {
            Ok(o) => {
                &&& o.port == match cli.port {
                    Some(p) => p,
                    None => 0,
                }
                &&& o.bind_addr == cli.bind_addr
                &&& o.use_ssh_connection == cli.use_ssh_connection
                &&& o.no_daemonize == cli.no_daemonize
                &&& o.log_file == cli.log_file
                &&& o.command_args == cli.command_args
                &&& locale_vars_parse(words::strings_view(cli.locale_vars@))
                &&& words::pairs_view(o.locale_vars@) == locale_vars_of(
                    words::strings_view(cli.locale_vars@),
                )
            },
            Err(e) => exists|i: int|
                #![trigger cli.locale_vars@[i]]
                0 <= i < cli.locale_vars@.len() && locale_var_of(cli.locale_vars@[i]@) is None
                    && e@ == locale_error(cli.locale_vars@[i]@) && locale_vars_parse(
                    words::strings_view(cli.locale_vars@).take(i),
                ),
        },
{
    let ghost all = words::strings_view(cli.locale_vars@);
    let mut locale_vars: Vec<(String, String)> = Vec::new();
    let mut i: usize = 0;
    while i < cli.locale_vars.len()
        invariant
            i <= cli.locale_vars@.len(),
            all == words::strings_view(cli.locale_vars@),
            locale_vars@.len() == i,
            forall|k: int| 0 <= k < i ==> locale_var_of(#[trigger] all[k]) is Some,
            forall|k: int|
                0 <= k < i ==> (#[trigger] locale_vars@[k].0@, locale_vars@[k].1@)
                    == locale_var_of(all[k])->Some_0,
        decreases cli.locale_vars@.len() - i,
    {
        assert(all[i as int] == cli.locale_vars@[i as int]@);
        match parse_locale_var(cli.locale_vars[i].as_str()) {
            Ok(pair) => {
                locale_vars.push(pair);
            },
            Err(e) => {
                assert forall|k: int| 0 <= k < all.take(i as int).len() implies locale_var_of(
                    #[trigger] all.take(i as int)[k],
                ) is Some by {
                    assert(all.take(i as int)[k] == all[k]);
                }
                return Err(e);
            },
        }
        i = i + 1;
    }
    assert(words::pairs_view(locale_vars@) =~= locale_vars_of(all));
    Ok(
        CliOptions {
            port: match cli.port {
                Some(p) => p,
                None => 0,
            },
            bind_addr: cli.bind_addr,
            use_ssh_connection: cli.use_ssh_connection,
            no_daemonize: cli.no_daemonize,
            log_file: cli.log_file,
            locale_vars,
            command_args: cli.command_args,
        },
    )
}

/// The address of the server in what SSH tells of a connection: the third word, where an IPv4
/// address may be written as an IPv6 one.
pub open spec fn ssh_connection_ip_of(value: Seq<char>) -> Option<Seq<char>> {
    let parts = words::words_of(value);
    if parts.len() >= 3 {
        if words::starts_with(parts[2], "::ffff:"@) {
            Some(parts[2].skip("::ffff:"@.len() as int))
        } else {
            Some(parts[2])
        }
    } else {
        None
    }
}

/// The address of the server in the value of `SSH_CONNECTION`.
pub fn ssh_connection_ip(value: &str) -> (res: Option<String>)
    ensures
        match res {
            Some(ip) => ssh_connection_ip_of(value@) == Some(ip@),
            None => ssh_connection_ip_of(value@) is None,
        },
{
    let parts = split_words(value);
    if parts.len() >= 3 {
        let ghost third = words::words_of(value@)[2];
        let chars = chars_of(parts[2].as_str());
        assert(chars@ == third);
        if has_prefix(&chars, "::ffff:") {
            proof {
                reveal_strlit("::ffff:");
            }
            let ip = string_of(&chars, 7, chars.len());
            assert(ip@ =~= third.skip(7));
            Some(ip)
        } else {
            let ip = string_of(&chars, 0, chars.len());
            assert(ip@ =~= third);
            Some(ip)
        }
    } else {
        None
    }
}

/// What an optional text holds.
pub open spec fn opt_view(s: Option<String>) -> Option<Seq<char>> {
    match s {
        Some(s) => Some(s@),
        None => None,
    }
}

/// The port to bind to.
pub open spec fn port_chosen(
    port: u16,
    is_daemon_child: bool,
    daemon_port: Option<Seq<char>>,
) -> u16 {
    match daemon_port {
        Some(s) => if is_daemon_child && words::port_of(s) is Some {
            words::port_of(s).unwrap()
        } else {
            port
        },
        None => port,
    }
}

/// The port to bind to: a daemon keeps the port that its parent found.
pub fn choose_port(port: u16, is_daemon_child: bool, daemon_port: &Option<String>) -> (res: u16)
    ensures
        res == port_chosen(port, is_daemon_child, opt_view(*daemon_port)),
        res == match *daemon_port {
            Some(s) => match words::port_of(s@) {
                Some(p) => if is_daemon_child {
                    p
                } else {
                    port
                },
                None => port,
            },
            None => port,
        },
{
    if is_daemon_child {
        if let Some(s) = daemon_port {
            if let Some(p) = parse_port(s.as_str()) {
                return p;
            }
        }
    }
    port
}

/// The shell to run.
pub open spec fn shell_chosen(
    command_args: Seq<Seq<char>>,
    shell: Option<Seq<char>>,
    windows: bool,
) -> Seq<char> {
    if command_args.len() > 0 {
        command_args[0]
    } else {
        match shell {
            Some(s) => s,
            None => if windows {
                "cmd.exe"@
            } else {
                "/bin/sh"@
            },
        }
    }
}

/// The shell to run: the command that was given, or that of the environment, or the usual one.
pub fn choose_shell(command_args: &Vec<String>, shell: Option<String>, windows: bool) -> (res: String)
    ensures
        res@ == shell_chosen(words::strings_view(command_args@), opt_view(shell), windows),
        res@ == if command_args@.len() > 0 {
            command_args@[0]@
        } else {
            match shell {
                Some(s) => s@,
                None => if windows {
                    "cmd.exe"@
                } else {
                    "/bin/sh"@
                },
            }
        },
{
    if command_args.len() > 0 {
        command_args[0].clone()
    } else {
        match shell {
            Some(s) => s,
            None => if windows {
                "cmd.exe".to_owned()
            } else {
                "/bin/sh".to_owned()
            },
        }
    }
}

/// The address to bind to: the one that was asked for, or else that of the SSH connection, where the
/// value of `SSH_CONNECTION` tells it.
pub fn desired_ip(bind_addr: &Option<String>, ssh_connection: &Option<String>) -> (res: Option<
    String,
>)
    ensures
        opt_view(res) == ip_desired(opt_view(*bind_addr), opt_view(*ssh_connection)),
        match (*bind_addr, *ssh_connection) {
            (Some(b), _) => res matches Some(ip) && ip@ == b@,
            (None, Some(value)) => match res {
                Some(ip) => ssh_connection_ip_of(value@) == Some(ip@),
                None => ssh_connection_ip_of(value@) is None,
            },
            (None, None) => res is None,
        },
{
    match bind_addr {
        Some(b) => Some(b.clone()),
        None => match ssh_connection {
            Some(value) => ssh_connection_ip(value.as_str()),
            None => None,
        },
    }
}

/// What the server prints for whoever started it: its port and its key.
pub open spec fn connect_text(port: u16, key: Seq<char>) -> Seq<char> {
    "MOSH CONNECT "@ + text::decimal(port as nat) + " "@ + key
}

/// What the server prints for whoever started it: its port and its key.
pub fn connect_line(port: u16, key: &str) -> (res: String)
    ensures
        res@ == connect_text(port, key@),
{
    let mut line = "MOSH CONNECT ".to_owned();
    push_decimal(&mut line, port as u64);
    line.push_str(" ");
    line.push_str(key);
    line
}

/// A name without an equals sign and any value are read back.
pub proof fn locale_var_roundtrip(name: Seq<char>, value: Seq<char>)
    requires
        !name.contains('='),
    ensures
        locale_var_of(name + seq!['='] + value) == Some((name, value)),
{
    let s = name + seq!['='] + value;
    words::first_is_first(s, '=');
    let n = words::first_at(s, '=');
    if n < name.len() {
        assert(s[n] == name[n]);
        assert(name.contains(s[n]));
    }
    assert(s[name.len() as int] == '=');
    assert(s.contains('='));
    assert(n == name.len());
    assert(s.take(n) =~= name);
    assert(s.skip(n + 1) =~= value);
}

/// What has no equals sign is no variable.
pub proof fn variables_have_equals_sign(s: Seq<char>)
    ensures
        locale_var_of(s) is Some <==> s.contains('='),
{
    words::first_is_first(s, '=');
}

/// What SSH tells of a connection is four words; the third one is the address of the server, and an
/// IPv4 address in the form of IPv6 loses what comes before it. With fewer than three words there is
/// no address.
pub proof fn third_word_is_address(parts: Seq<Seq<char>>)
    requires
        forall|i: int| 0 <= i < parts.len() ==> words::is_word(#[trigger] parts[i]),
    ensures
        ({
            let ip = ssh_connection_ip_of(words::joined(parts, seq![' ']));
            let mapped = seq![':', ':', 'f', 'f', 'f', 'f', ':'];
            &&& parts.len() < 3 ==> ip is None
            &&& parts.len() >= 3 && parts[2].len() >= 7 && parts[2].take(7) == mapped ==> ip == Some(
                parts[2].skip(7),
            )
            &&& parts.len() >= 3 && !(parts[2].len() >= 7 && parts[2].take(7) == mapped) ==> ip
                == Some(parts[2])
        }),
{
    reveal_strlit("::ffff:");
    assert("::ffff:"@ =~= seq![':', ':', 'f', 'f', 'f', 'f', ':']);
    words::words_of_joined(parts);
}

/// A variable that is refused is named in the message.
pub proof fn refused_variables_are_named(s: Seq<char>)
    ensures
        locale_error(s) == "morsh-server: -l argument must be NAME=VALUE, got '"@ + s + "'"@,
{
}

/// The address to bind to.
pub open spec fn ip_desired(
    bind_addr: Option<Seq<char>>,
    ssh_connection: Option<Seq<char>>,
) -> Option<Seq<char>> {
    match bind_addr {
        Some(b) => Some(b),
        None => match ssh_connection {
            Some(value) => ssh_connection_ip_of(value),
            None => None,
        },
    }
}

/// A daemon takes the port of its parent, where it is told one; any other server the port it was
/// given.
pub proof fn daemons_keep_ports(port: u16, found: u16, text: Seq<char>)
    ensures
        port_chosen(port, true, Some(text::decimal(found as nat))) == found,
        words::port_of(text) is None ==> port_chosen(port, true, Some(text)) == port,
        port_chosen(port, false, Some(text)) == port,
        port_chosen(port, true, None) == port,
        port_chosen(port, false, None) == port,
{
    words::port_roundtrip(found);
}

/// A command that is given is run; without one the shell of the environment is, and without that the
/// usual one of the system.
pub proof fn given_commands_come_first(
    command_args: Seq<Seq<char>>,
    shell: Seq<char>,
    windows: bool,
)
    ensures
        command_args.len() > 0 ==> shell_chosen(command_args, Some(shell), windows)
            == command_args[0] && shell_chosen(command_args, None, windows) == command_args[0],
        command_args.len() == 0 ==> shell_chosen(command_args, Some(shell), windows) == shell,
        command_args.len() == 0 ==> shell_chosen(command_args, None, true) == "cmd.exe"@,
        command_args.len() == 0 ==> shell_chosen(command_args, None, false) == "/bin/sh"@,
{
}

/// An address that is given is the one to bind to, whatever SSH tells; without one it is that of the
/// SSH connection.
pub proof fn given_addresses_come_first(ip: Seq<char>, ssh: Option<Seq<char>>, value: Seq<char>)
    ensures
        ip_desired(Some(ip), ssh) == Some(ip),
        ip_desired(None, Some(value)) == ssh_connection_ip_of(value),
        ip_desired(None, None) is None,
{
}

} // verus!
