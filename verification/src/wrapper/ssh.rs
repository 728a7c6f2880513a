//! How the remote host is reached: which SSH to use, where the host is, and who logs in.

use crate::text;
use crate::text::push_decimal;
use crate::words;
use crate::words::chars_of;
use crate::words::find_after_last;
use crate::words::find_first;
use crate::words::has_prefix;
use crate::words::parse_port;
use crate::words::same;
use crate::words::split_words;
use crate::words::string_of;
use vstd::prelude::*;

verus! {

/// Which SSH backend to use for connecting to the remote host.
#[derive(Debug, Clone, Copy, PartialEq, Eq, Structural)]
pub enum SshMode {
    /// Try the built-in SSH, fall back to the system's if no private key is found.
    Auto,
    /// Use the system ssh command.
    System,
    /// Use the built-in SSH. Error if no private key is available.
    Russh,
}

/// A text in lower case.
pub uninterp spec fn lowercased(s: Seq<char>) -> Seq<char>;

/// `str::to_lowercase`: the lower case equivalent of a text, by the Unicode rules.
#[verifier::external_body]
fn to_lowercase(s: &str) -> (res: String)
    ensures
        res@ == lowercased(s@),
{
    s.to_lowercase()
}

/// The mode that a name in lower case stands for.
pub open spec fn mode_of(name: Seq<char>) -> Result<SshMode, Seq<char>> {
    if name == "auto"@ {
        Ok(SshMode::Auto)
    } else if name == "russh"@ {
        Ok(SshMode::Russh)
    } else if name == "system"@ {
        Ok(SshMode::System)
    } else {
        Err("unknown SSH mode '"@ + name + "'. Use 'auto', 'russh', or 'system'"@)
    }
}

/// The mode that a name in lower case stands for.
pub fn mode_named(name: String) -> (res: Result<SshMode, String>)
    ensures
        match res {
            Ok(mode) => mode_of(name@) == Ok::<SshMode, Seq<char>>(mode),
            Err(e) => mode_of(name@) == Err::<SshMode, Seq<char>>(e@),
        },
{
    if name == "auto".to_owned() {
        Ok(SshMode::Auto)
    } else if name == "russh".to_owned() {
        Ok(SshMode::Russh)
    } else if name == "system".to_owned() {
        Ok(SshMode::System)
    } else {
        let mut e = "unknown SSH mode '".to_owned();
        e.push_str(name.as_str());
        e.push_str("'. Use 'auto', 'russh', or 'system'");
        Err(e)
    }
}

impl SshMode {
    /// The mode with a name, in upper or lower case.
    pub fn from_str(s: &str) -> (res: Result<SshMode, String>)
        ensures
            match res {
                Ok(mode) => mode_of(lowercased(s@)) == Ok::<SshMode, Seq<char>>(mode),
                Err(e) => mode_of(lowercased(s@)) == Err::<SshMode, Seq<char>>(e@),
            },
    {
        mode_named(to_lowercase(s))
    }
}

/// What to try next in reaching the remote host.
#[derive(Debug, Clone, Copy, PartialEq, Eq, Structural)]
pub enum SshStep {
    /// The built-in SSH.
    BuiltIn,
    /// The system's ssh.
    System,
    /// Nothing: there is no private key.
    NoKey,
    /// Nothing: it has failed.
    Failed,
}

/// What is tried first.
pub open spec fn step_at_first(mode: SshMode, has_key: bool) -> SshStep {
    match mode {
        SshMode::System => SshStep::System,
        SshMode::Russh => if has_key {
            SshStep::BuiltIn
        } else {
            SshStep::NoKey
        },
        SshMode::Auto => if has_key {
            SshStep::BuiltIn
        } else {
            SshStep::System
        },
    }
}

/// What is tried after the built-in SSH has failed.
pub open spec fn step_after_failure(mode: SshMode) -> SshStep {
    if mode == SshMode::Russh {
        SshStep::Failed
    } else {
        SshStep::System
    }
}

/// What to try first.
pub fn first_step(mode: SshMode, has_key: bool) -> (res: SshStep)
    ensures
        res == step_at_first(mode, has_key),
        res == match mode {
            SshMode::System => SshStep::System,
            SshMode::Russh => if has_key {
                SshStep::BuiltIn
            } else {
                SshStep::NoKey
            },
            SshMode::Auto => if has_key {
                SshStep::BuiltIn
            } else {
                SshStep::System
            },
        },
{
    match mode {
        SshMode::System => SshStep::System,
        SshMode::Russh => if has_key {
            SshStep::BuiltIn
        } else {
            SshStep::NoKey
        },
        SshMode::Auto => if has_key {
            SshStep::BuiltIn
        } else {
            SshStep::System
        },
    }
}

/// What to try after the built-in SSH has failed.
pub fn next_step(mode: SshMode) -> (res: SshStep)
    ensures
        res == step_after_failure(mode),
        res == if mode == SshMode::Russh {
            SshStep::Failed
        } else {
            SshStep::System
        },
{
    match mode {
        SshMode::Russh => SshStep::Failed,
        _ => SshStep::System,
    }
}

/// The user and the host in `user@host`, where the last at sign counts. Without one, the user is
/// root.
pub open spec fn user_host_of(s: Seq<char>) -> (Seq<char>, Seq<char>) {
    let n = words::after_last(s, '@');
    if n > 0 {
        (s.take(n - 1), s.skip(n))
    } else {
        ("root"@, s)
    }
}

/// The user and the host in `user@host`.
pub fn parse_user_host(s: &str) -> (res: (String, String))
    ensures
        (res.0@, res.1@) == user_host_of(s@),
{
    let chars = chars_of(s);
    let n: usize = find_after_last(&chars, '@');
    if n > 0 {
        let user = string_of(&chars, 0, n - 1);
        let host = string_of(&chars, n, chars.len());
        assert(user@ =~= s@.take(n - 1));
        assert(host@ =~= s@.skip(n as int));
        (user, host)
    } else {
        ("root".to_owned(), s.to_owned())
    }
}

/// The name of the host: what follows the last at sign, up to a colon.
pub open spec fn hostname_of(host: Seq<char>) -> Seq<char> {
    let tail = host.skip(words::after_last(host, '@'));
    tail.take(words::first_at(tail, ':'))
}

/// The name of the host, without the user and the port.
pub fn hostname(host: &str) -> (res: String)
    ensures
        res@ == hostname_of(host@),
{
    let chars = chars_of(host);
    let n: usize = find_after_last(&chars, '@');
    let tail = string_of(&chars, n, chars.len());
    assert(tail@ =~= host@.skip(n as int));
    let tail_chars = chars_of(tail.as_str());
    let m: usize = find_first(&tail_chars, ':');
    let name = string_of(&tail_chars, 0, m);
    assert(name@ =~= tail@.take(m as int));
    name
}

/// The port in `host:port`: what follows the last colon, if it is a port.
pub open spec fn ssh_port_of(host: Seq<char>) -> u16 {
    let n = words::after_last(host, ':');
    match words::port_of(host.skip(n)) {
        Some(port) => if n > 0 {
            port
        } else {
            22
        },
        None => 22,
    }
}

/// The host and its port or the usual one, with a colon between them.
pub open spec fn address_of(host: Seq<char>) -> Seq<char> {
    host + ":"@ + text::decimal(ssh_port_of(host) as nat)
}

/// The address to connect to: the host, and its port or the usual one.
pub fn ssh_address(host: &str) -> (res: String)
    ensures
        res@ == address_of(host@),
        res@ == host@ + ":"@ + text::decimal(ssh_port_of(host@) as nat),
{
    let chars = chars_of(host);
    let n: usize = find_after_last(&chars, ':');
    let mut port: u16 = 22;
    if n > 0 {
        let tail = string_of(&chars, n, chars.len());
        assert(tail@ =~= host@.skip(n as int));
        if let Some(p) = parse_port(tail.as_str()) {
            port = p;
        }
    }
    let mut out = host.to_owned();
    out.push_str(":");
    push_decimal(&mut out, port as u64);
    out
}

/// The address to take among several: the first IPv4 address, or else the first. `v4` tells of each
/// whether it is one.
pub fn preferred_address(v4: &Vec<bool>) -> (res: Option<usize>)
    ensures
        match res {
            Some(i) => {
                &&& i < v4@.len()
                &&& v4@[i as int] ==> forall|k: int| 0 <= k < i ==> !v4@[k]
                &&& !v4@[i as int] ==> i == 0 && forall|k: int| 0 <= k < v4@.len() ==> !v4@[k]
            },
            None => v4@.len() == 0,
        },
{
    let mut i: usize = 0;
    while i < v4.len()
        invariant
            i <= v4@.len(),
            forall|k: int| 0 <= k < i ==> !v4@[k],
        decreases v4@.len() - i,
    {
        if v4[i] {
            return Some(i);
        }
        i = i + 1;
    }
    if v4.len() > 0 {
        Some(0)
    } else {
        None
    }
}

/// Where the server is to bind.
#[derive(Debug)]
pub enum BindChoice {
    /// To any address.
    Any,
    /// To the address of the SSH connection.
    Ssh,
    /// To a given address.
    Given(String),
}

/// Where the server is to bind.
pub fn bind_choice(value: &str) -> (res: BindChoice)
    ensures
        match res {
            BindChoice::Any => value@ == "any"@,
            BindChoice::Ssh => value@ == "ssh"@ && value@ != "any"@,
            BindChoice::Given(ip) => ip@ == value@ && value@ != "any"@ && value@ != "ssh"@,
        },
{
    if same(value, "any") {
        BindChoice::Any
    } else if same(value, "ssh") {
        BindChoice::Ssh
    } else {
        BindChoice::Given(value.to_owned())
    }
}

impl BindChoice {
    /// The address that the server is told to bind to. It finds that of its SSH connection itself.
    pub fn server_address(&self) -> (res: Option<String>)
        ensures
            match res {
                Some(ip) => told_to_server(*self) == Some(ip@),
                None => told_to_server(*self) is None,
            },
            match *self {
                BindChoice::Any => res matches Some(ip) && ip@ == "0.0.0.0"@,
                BindChoice::Ssh => res is None,
                BindChoice::Given(given) => res matches Some(ip) && ip@ == given@,
            },
    {
        match self {
            BindChoice::Any => Some("0.0.0.0".to_owned()),
            BindChoice::Ssh => None,
            BindChoice::Given(ip) => Some(ip.as_str().to_owned()),
        }
    }

    /// The address that the client connects to, where it is not that of the host: the one given to
    /// the server.
    pub fn client_address(&self) -> (res: Option<String>)
        ensures
            match res {
                Some(ip) => told_to_client(*self) == Some(ip@),
                None => told_to_client(*self) is None,
            },
            match *self {
                BindChoice::Given(given) => res matches Some(ip) && ip@ == given@,
                _ => res is None,
            },
    {
        match self {
            BindChoice::Given(ip) => Some(ip.as_str().to_owned()),
            _ => None,
        }
    }
}

/// The words of the SSH command, then the host and what to run there.
pub open spec fn args_of(ssh_command: Seq<char>, host: Seq<char>, remote_cmd: Seq<char>) -> Seq<
    Seq<char>,
> {
    words::words_of(ssh_command).push(host).push(remote_cmd)
}

/// The words of the SSH command, then the host and what to run there.
pub fn ssh_args(ssh_command: &str, host: &str, remote_cmd: &str) -> (res: Vec<String>)
    ensures
        words::strings_view(res@) == args_of(ssh_command@, host@, remote_cmd@),
        words::strings_view(res@) == words::words_of(ssh_command@).push(host@).push(remote_cmd@),
{
    let mut args = split_words(ssh_command);
    args.push(host.to_owned());
    args.push(remote_cmd.to_owned());
    assert(words::strings_view(args@) =~= words::words_of(ssh_command@).push(host@).push(
        remote_cmd@,
    ));
    args
}

/// A path in which the home directory may be written as a tilde.
pub open spec fn expanded(path: Seq<char>, home: Option<Seq<char>>) -> Seq<char> {
    match home {
        Some(home) => if words::starts_with(path, "~/"@) {
            home + "/"@ + path.skip(2)
        } else {
            path
        },
        None => path,
    }
}

/// Expands a tilde to the home directory, if it is known.
pub fn tilde_expand(path: &str, home: &Option<String>) -> (res: String)
    ensures
        res@ == expanded(
            path@,
            match *home {
                Some(h) => Some(h@),
                None => None,
            },
        ),
{
    let chars = chars_of(path);
    if has_prefix(&chars, "~/") {
        if let Some(h) = home {
            proof {
                reveal_strlit("~/");
            }
            let rest = string_of(&chars, 2, chars.len());
            assert(rest@ =~= path@.skip(2));
            let mut out = h.clone();
            out.push_str("/");
            out.push_str(rest.as_str());
            return out;
        }
    }
    path.to_owned()
}

/// Where private keys are looked for, in order.
pub open spec fn key_paths_view() -> Seq<Seq<char>> {
    seq!["~/.ssh/id_ed25519"@, "~/.ssh/id_rsa"@, "~/.ssh/id_ecdsa"@, "~/.ssh/identity"@]
}

/// Where private keys are looked for, in order.
pub fn key_paths(home: &Option<String>) -> (res: Vec<String>)
    ensures
        res@.len() == key_paths_view().len(),
        forall|i: int|
            0 <= i < res@.len() ==> (#[trigger] res@[i])@ == expanded(
                key_paths_view()[i],
                match *home {
                    Some(h) => Some(h@),
                    None => None,
                },
            ),
{
    let mut res: Vec<String> = Vec::new();
    res.push(tilde_expand("~/.ssh/id_ed25519", home));
    res.push(tilde_expand("~/.ssh/id_rsa", home));
    res.push(tilde_expand("~/.ssh/id_ecdsa", home));
    res.push(tilde_expand("~/.ssh/identity", home));
    res
}

/// A user and a host, neither with an at sign, are read back.
pub proof fn user_host_roundtrip(user: Seq<char>, host: Seq<char>)
    requires
        !host.contains('@'),
    ensures
        user_host_of(user + seq!['@'] + host) == (user, host),
{
    let s = user + seq!['@'] + host;
    words::after_last_is(s, '@', user.len() as int + 1);
    assert(s.take(user.len() as int) =~= user);
    assert(s.skip(user.len() as int + 1) =~= host);
}

/// A mode is understood by its name, and by no other.
pub proof fn modes_are_named(name: Seq<char>)
    ensures
        mode_of(name) == Ok::<SshMode, Seq<char>>(SshMode::Auto) <==> name == "auto"@,
        mode_of(name) == Ok::<SshMode, Seq<char>>(SshMode::Russh) <==> name == "russh"@,
        mode_of(name) == Ok::<SshMode, Seq<char>>(SshMode::System) <==> name == "system"@,
        mode_of(name) is Err <==> name != "auto"@ && name != "russh"@ && name != "system"@,
{
    reveal_strlit("auto");
    reveal_strlit("russh");
    reveal_strlit("system");
    assert("auto"@[0] == 'a' && "russh"@[0] == 'r' && "system"@[0] == 's');
}

/// Nothing is after the last occurrence of a character that does not occur.
proof fn none_is_last(s: Seq<char>, c: char)
    requires
        !s.contains(c),
    ensures
        words::after_last(s, c) == 0,
    decreases s.len(),
{
    if s.len() > 0 {
        assert(s.contains(s[s.len() - 1]));
        let t = s.drop_last();
        assert forall|k: int| 0 <= k < t.len() implies t[k] != c by {
            assert(s.contains(s[k]));
        }
        none_is_last(t, c);
    }
}

/// Without an at sign the user is root.
pub proof fn user_is_root(host: Seq<char>)
    requires
        !host.contains('@'),
    ensures
        user_host_of(host) == ("root"@, host),
{
    none_is_last(host, '@');
}

/// The name of the host is found between the user and the port, where there are any.
pub proof fn hostname_is_found(user: Seq<char>, name: Seq<char>, port: Seq<char>)
    requires
        !name.contains('@'),
        !name.contains(':'),
        !port.contains('@'),
    ensures
        hostname_of(name) == name,
        hostname_of(name + seq![':'] + port) == name,
        hostname_of(user + seq!['@'] + name) == name,
        hostname_of(user + seq!['@'] + name + seq![':'] + port) == name,
{
    name_ends(name, port);
    let bare = name + seq![':'] + port;
    none_is_last(name, '@');
    assert(!bare.contains('@')) by {
        assert forall|k: int| 0 <= k < bare.len() implies bare[k] != '@' by {
            if k < name.len() {
                assert(name.contains(name[k]));
            } else if k > name.len() {
                assert(port.contains(port[k - name.len() - 1]));
            }
        }
    }
    none_is_last(bare, '@');
    assert(name.skip(0) =~= name);
    assert(bare.skip(0) =~= bare);
    let n = user.len() as int + 1;
    let s = user + seq!['@'] + name;
    assert(s.skip(n) =~= name);
    words::after_last_is(s, '@', n);
    let t = user + seq!['@'] + name + seq![':'] + port;
    assert(t.skip(n) =~= bare);
    words::after_last_is(t, '@', n);
}

proof fn name_ends(name: Seq<char>, port: Seq<char>)
    requires
        !name.contains(':'),
    ensures
        name.take(words::first_at(name, ':')) == name,
        ({
            let bare = name + seq![':'] + port;
            bare.take(words::first_at(bare, ':')) == name
        }),
{
    words::first_is_first(name, ':');
    assert(name.take(name.len() as int) =~= name);
    let bare = name + seq![':'] + port;
    words::first_is_first(bare, ':');
    let n = words::first_at(bare, ':');
    assert(bare[name.len() as int] == ':');
    if n < name.len() {
        assert(bare[n] == name[n]);
        assert(name.contains(name[n]));
    }
    assert(n == name.len());
    assert(bare.take(n) =~= name);
}

/// A port that is given counts; without one, or where it is no port, it is twenty-two.
pub proof fn ssh_port_is_found(name: Seq<char>, given: Seq<char>, port: u16)
    requires
        !name.contains(':'),
        !given.contains(':'),
    ensures
        ssh_port_of(name) == 22,
        words::port_of(given) is None ==> ssh_port_of(name + seq![':'] + given) == 22,
        ssh_port_of(name + seq![':'] + text::decimal(port as nat)) == port,
{
    none_is_last(name, ':');
    let s = name + seq![':'] + given;
    let n = name.len() as int + 1;
    assert(s.skip(n) =~= given);
    words::after_last_is(s, ':', n);
    let number = text::decimal(port as nat);
    text::decimal_roundtrip(port as nat);
    words::port_roundtrip(port);
    assert(!number.contains(':')) by {
        assert forall|k: int| 0 <= k < number.len() implies number[k] != ':' by {
            assert(text::is_digit_char(number[k]));
        }
    }
    let t = name + seq![':'] + number;
    assert(t.skip(n) =~= number);
    words::after_last_is(t, ':', n);
}

/// A tilde stands for the home directory, where one is known; any other path stays.
pub proof fn tilde_is_home(home: Seq<char>, path: Seq<char>)
    ensures
        expanded(seq!['~', '/'] + path, Some(home)) == home + seq!['/'] + path,
        expanded(path, None) == path,
        path.len() < 2 || path[0] != '~' || path[1] != '/' ==> expanded(path, Some(home)) == path,
{
    reveal_strlit("~/");
    reveal_strlit("/");
    let s = seq!['~', '/'] + path;
    assert("~/"@ =~= seq!['~', '/']);
    assert("/"@ =~= seq!['/']);
    assert(s.take(2) =~= "~/"@);
    assert(s.skip(2) =~= path);
    if words::starts_with(path, "~/"@) {
        assert(path[0] == path.take(2)[0] && path[1] == path.take(2)[1]);
    }
}

/// Private keys are looked for below the home directory: first the newest kind, then the older ones.
pub proof fn keys_are_looked_for_at_home(home: Seq<char>)
    ensures
        key_paths_view().len() == 4,
        expanded(key_paths_view()[0], Some(home)) == home + "/.ssh/id_ed25519"@,
        expanded(key_paths_view()[1], Some(home)) == home + "/.ssh/id_rsa"@,
        expanded(key_paths_view()[2], Some(home)) == home + "/.ssh/id_ecdsa"@,
        expanded(key_paths_view()[3], Some(home)) == home + "/.ssh/identity"@,
{
    reveal_strlit("~/.ssh/id_ed25519");
    reveal_strlit("~/.ssh/id_rsa");
    reveal_strlit("~/.ssh/id_ecdsa");
    reveal_strlit("~/.ssh/identity");
    reveal_strlit("/.ssh/id_ed25519");
    reveal_strlit("/.ssh/id_rsa");
    reveal_strlit("/.ssh/id_ecdsa");
    reveal_strlit("/.ssh/identity");
    let tilde = seq!['~', '/'];
    assert forall|i: int| 0 <= i < 4 implies #[trigger] key_paths_view()[i] == tilde
        + key_paths_view()[i].skip(2) by {
        assert(key_paths_view()[i] =~= tilde + key_paths_view()[i].skip(2));
    }
    tilde_is_home(home, key_paths_view()[0].skip(2));
    tilde_is_home(home, key_paths_view()[1].skip(2));
    tilde_is_home(home, key_paths_view()[2].skip(2));
    tilde_is_home(home, key_paths_view()[3].skip(2));
    assert(expanded(key_paths_view()[0], Some(home)) =~= home + "/.ssh/id_ed25519"@);
    assert(expanded(key_paths_view()[1], Some(home)) =~= home + "/.ssh/id_rsa"@);
    assert(expanded(key_paths_view()[2], Some(home)) =~= home + "/.ssh/id_ecdsa"@);
    assert(expanded(key_paths_view()[3], Some(home)) =~= home + "/.ssh/identity"@);
}

/// A mode that is not known is named in the message, with those that are.
pub proof fn unknown_modes_are_named(name: Seq<char>)
    ensures
        mode_of(name) is Err ==> mode_of(name) == Err::<SshMode, Seq<char>>(
            "unknown SSH mode '"@ + name + "'. Use 'auto', 'russh', or 'system'"@,
        ),
{
}

/// The built-in SSH is tried first where it is allowed and there is a key. Without a key the system's
/// ssh takes its place, unless only the built-in one is allowed; and so after it has failed.
pub proof fn ssh_falls_back(mode: SshMode, has_key: bool)
    ensures
        step_at_first(mode, has_key) == SshStep::BuiltIn <==> has_key && mode != SshMode::System,
        step_at_first(mode, has_key) == SshStep::NoKey <==> !has_key && mode == SshMode::Russh,
        step_at_first(mode, has_key) == SshStep::System <==> mode == SshMode::System || !has_key
            && mode == SshMode::Auto,
        step_after_failure(mode) == SshStep::Failed <==> mode == SshMode::Russh,
        step_after_failure(mode) == SshStep::System <==> mode != SshMode::Russh,
{
}

/// The address of a host without a port ends in the usual one; a host with a port is followed by it.
pub proof fn addresses_have_ports(name: Seq<char>, port: u16)
    requires
        !name.contains(':'),
    ensures
        address_of(name) == name + seq![':', '2', '2'],
        ({
            let host = name + seq![':'] + text::decimal(port as nat);
            address_of(host) == host + seq![':'] + text::decimal(port as nat)
        }),
{
    reveal_strlit(":");
    assert(":"@ =~= seq![':']);
    ssh_port_is_found(name, seq![], port);
    assert(22nat / 10 == 2nat && 22nat % 10 == 2nat);
    reveal_with_fuel(text::decimal, 3);
    assert(text::decimal(22) =~= seq!['2', '2']);
    assert(address_of(name) =~= name + seq![':', '2', '2']);
}

/// SSH is called with its own words, the host, and what is to be run there as one argument.
pub proof fn ssh_runs_remote_command(
    parts: Seq<Seq<char>>,
    host: Seq<char>,
    remote_cmd: Seq<char>,
)
    requires
        forall|i: int| 0 <= i < parts.len() ==> words::is_word(#[trigger] parts[i]),
    ensures
        ({
            let args = args_of(words::joined(parts, seq![' ']), host, remote_cmd);
            &&& args.len() == parts.len() + 2
            &&& args.take(parts.len() as int) == parts
            &&& args[parts.len() as int] == host
            &&& args[parts.len() as int + 1] == remote_cmd
        }),
{
    words::words_of_joined(parts);
    let args = args_of(words::joined(parts, seq![' ']), host, remote_cmd);
    assert(args.take(parts.len() as int) =~= parts);
}

/// The address that a server is told to bind to.
pub open spec fn told_to_server(choice: BindChoice) -> Option<Seq<char>> {
    match choice {
        BindChoice::Any => Some("0.0.0.0"@),
        BindChoice::Ssh => None,
        BindChoice::Given(ip) => Some(ip@),
    }
}

/// The address that a client is told to connect to.
pub open spec fn told_to_client(choice: BindChoice) -> Option<Seq<char>> {
    match choice {
        BindChoice::Given(ip) => Some(ip@),
        _ => None,
    }
}

/// An address that is given is told to both sides; without one the client finds the host by itself,
/// and the server binds to every address or finds that of its connection.
pub proof fn given_addresses_are_told(choice: BindChoice)
    ensures
        choice is Given ==> told_to_server(choice) == Some(choice->Given_0@) && told_to_client(
            choice,
        ) == Some(choice->Given_0@),
        !(choice is Given) ==> told_to_client(choice) is None,
        choice is Ssh <==> told_to_server(choice) is None,
        choice is Any ==> told_to_server(choice) == Some("0.0.0.0"@),
{
}

} // verus!
