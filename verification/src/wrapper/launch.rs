//! What the remote shell is told to run, argument by argument and text by text.

use crate::words;
use crate::wrapper::remote;
use crate::wrapper::remote::LaunchOptions;
use crate::wrapper::remote::RemoteShell;
use vstd::prelude::*;

verus! {

/// Where the locale variables start among the arguments.
pub open spec fn locale_at(ip: Option<String>) -> int {
    if ip.is_some() {
        4
    } else {
        3
    }
}

/// Where the log file stands among the arguments.
pub open spec fn log_at(ip: Option<String>, vars: Seq<(Seq<char>, Seq<char>)>) -> int {
    locale_at(ip) + 2 * vars.len()
}

/// Where the foreground flag stands among the arguments.
pub open spec fn flag_at(
    ip: Option<String>,
    log_file: Option<String>,
    vars: Seq<(Seq<char>, Seq<char>)>,
) -> int {
    log_at(ip, vars) + if log_file.is_some() {
        2int
    } else {
        0
    }
}

/// Where the command stands among the arguments.
pub open spec fn command_at(
    ip: Option<String>,
    log_file: Option<String>,
    no_daemonize: bool,
    vars: Seq<(Seq<char>, Seq<char>)>,
) -> int {
    flag_at(ip, log_file, vars) + if no_daemonize {
        1int
    } else {
        0
    }
}

/// Whether the `k`-th locale variable stands at its place, if they start at `at`.
pub open spec fn tells_variable(
    args: Seq<Seq<char>>,
    at: int,
    vars: Seq<(Seq<char>, Seq<char>)>,
    k: int,
) -> bool {
    args[at + 2 * k] == "-l"@ && args[at + 2 * k + 1] == vars[k].0 + "="@ + vars[k].1
}

/// Whether `args` start the server at `path` and tell it everything: to make a new session, which
/// address to bind to, each locale variable, the log file, whether to stay in the foreground, and
/// the words of the command in order.
pub open spec fn is_invocation(
    args: Seq<Seq<char>>,
    path: Seq<char>,
    ip: Option<String>,
    log_file: Option<String>,
    no_daemonize: bool,
    command: Seq<Seq<char>>,
    vars: Seq<(Seq<char>, Seq<char>)>,
) -> bool {
    let c = command_at(ip, log_file, no_daemonize, vars);
    &&& args.len() == c + if command.len() > 0 {
        1 + command.len()
    } else {
        0
    }
    &&& args[0] == path
    &&& args[1] == "new"@
    &&& match ip {
        Some(ip) => args[2] == "-i"@ && args[3] == ip@,
        None => args[2] == "-s"@,
    }
    &&& forall|k: int|
        0 <= k < vars.len() ==> #[trigger] tells_variable(args, locale_at(ip), vars, k)
    &&& match log_file {
        Some(path) => args[log_at(ip, vars)] == "--log-file"@ && args[log_at(ip, vars) + 1]
            == path@,
        None => true,
    }
    &&& no_daemonize ==> args[flag_at(ip, log_file, vars)] == "-D"@
    &&& command.len() > 0 ==> args[c] == "-e"@
    &&& forall|k: int| 0 <= k < command.len() ==> args[c + 1 + k] == #[trigger] command[k]
}

proof fn locale_positions(vars: Seq<(Seq<char>, Seq<char>)>)
    ensures
        remote::locale_args(vars).len() == 2 * vars.len(),
        forall|k: int|
            0 <= k < vars.len() ==> #[trigger] tells_variable(
                remote::locale_args(vars),
                0,
                vars,
                k,
            ),
    decreases vars.len(),
{
    if vars.len() > 0 {
        let init = vars.drop_last();
        locale_positions(init);
        let args = remote::locale_args(vars);
        let before = remote::locale_args(init);
        assert forall|k: int| 0 <= k < vars.len() implies #[trigger] tells_variable(
            args,
            0,
            vars,
            k,
        ) by {
            if k < init.len() {
                assert(tells_variable(before, 0, init, k));
                assert(init[k] == vars[k]);
                assert(args[2 * k] == before[2 * k]);
                assert(args[2 * k + 1] == before[2 * k + 1]);
            }
        }
    }
}

/// The arguments of a server tell it everything, each at its place.
pub proof fn arguments_tell_everything(
    path: Seq<char>,
    ip: Option<String>,
    log_file: Option<String>,
    no_daemonize: bool,
    command: Seq<Seq<char>>,
    vars: Seq<(Seq<char>, Seq<char>)>,
)
    ensures
        is_invocation(
            remote::server_args(path, ip, log_file, no_daemonize, command, vars),
            path,
            ip,
            log_file,
            no_daemonize,
            command,
            vars,
        ),
{
    locale_positions(vars);
    let args = remote::server_args(path, ip, log_file, no_daemonize, command, vars);
    let locale = remote::locale_args(vars);
    let head = seq![path, "new"@] + remote::address_args(ip);
    assert(head.len() == locale_at(ip));
    assert forall|k: int| 0 <= k < vars.len() implies #[trigger] tells_variable(
        args,
        locale_at(ip),
        vars,
        k,
    ) by {
        assert(tells_variable(locale, 0, vars, k));
        assert(args[locale_at(ip) + 2 * k] == locale[2 * k]);
        assert(args[locale_at(ip) + 2 * k + 1] == locale[2 * k + 1]);
    }
}

/// Arguments that tell everything, each at its place, are the arguments of the server.
proof fn arguments_are_those(
    args: Seq<Seq<char>>,
    path: Seq<char>,
    ip: Option<String>,
    log_file: Option<String>,
    no_daemonize: bool,
    command: Seq<Seq<char>>,
    vars: Seq<(Seq<char>, Seq<char>)>,
)
    requires
        is_invocation(args, path, ip, log_file, no_daemonize, command, vars),
    ensures
        args == remote::server_args(path, ip, log_file, no_daemonize, command, vars),
{
    let want = remote::server_args(path, ip, log_file, no_daemonize, command, vars);
    arguments_tell_everything(path, ip, log_file, no_daemonize, command, vars);
    let l = locale_at(ip);
    let g = log_at(ip, vars);
    let c = command_at(ip, log_file, no_daemonize, vars);
    assert forall|i: int| 0 <= i < args.len() implies args[i] == #[trigger] want[i] by {
        if l <= i < g {
            let k = (i - l) / 2;
            assert(tells_variable(args, l, vars, k));
            assert(tells_variable(want, l, vars, k));
            assert(i == l + 2 * k || i == l + 2 * k + 1);
        } else if i > c {
            let k = i - c - 1;
            assert(command[k] == command[k]);
        }
    }
    assert(args =~= want);
}

/// A text with every occurrence of a character written twice.
pub open spec fn twice(s: Seq<char>, c: char) -> Seq<char>
    decreases s.len(),
{
    if s.len() == 0 {
        seq![]
    } else {
        (if s[0] == c {
            seq![c, c]
        } else {
            seq![s[0]]
        }) + twice(s.drop_first(), c)
    }
}

proof fn twice_push(s: Seq<char>, last: char, c: char)
    ensures
        twice(s.push(last), c) == twice(s, c) + if last == c {
            seq![c, c]
        } else {
            seq![last]
        },
    decreases s.len(),
{
    let all = s.push(last);
    let tail = if last == c {
        seq![c, c]
    } else {
        seq![last]
    };
    if s.len() == 0 {
        assert(all.drop_first() =~= seq![]);
        assert(twice(all.drop_first(), c) =~= seq![]);
        assert(twice(all, c) =~= tail);
        assert(twice(s, c) + tail =~= tail);
    } else {
        let rest = s.drop_first();
        twice_push(rest, last, c);
        assert(all.drop_first() =~= rest.push(last));
        assert(all[0] == s[0]);
        let head = if s[0] == c {
            seq![c, c]
        } else {
            seq![s[0]]
        };
        assert(head + (twice(rest, c) + tail) =~= head + twice(rest, c) + tail);
    }
}

proof fn doubled_is_twice(s: Seq<char>, c: char)
    ensures
        words::doubled(s, c) == twice(s, c),
    decreases s.len(),
{
    if s.len() > 0 {
        doubled_is_twice(s.drop_last(), c);
        twice_push(s.drop_last(), s.last(), c);
        assert(s.drop_last().push(s.last()) =~= s);
        assert(words::doubled(s, c) =~= twice(s, c));
    } else {
        assert(words::doubled(s, c) =~= twice(s, c));
    }
}

/// Whether a text has a blank or a tab in it.
pub open spec fn has_space(s: Seq<char>) -> bool {
    exists|i: int| 0 <= i < s.len() && (#[trigger] s[i] == ' ' || s[i] == '\t')
}

/// An argument as a shell reads it back: bare on a POSIX host; for cmd in double quotes where it has
/// a blank or a tab, its own double quotes written twice; for PowerShell always in single quotes,
/// its own written twice.
pub open spec fn protected(shell: RemoteShell, s: Seq<char>) -> Seq<char> {
    match shell {
        RemoteShell::Posix => s,
        RemoteShell::Cmd => if has_space(s) {
            seq!['"'] + twice(s, '"') + seq!['"']
        } else {
            s
        },
        RemoteShell::PowerShell => seq!['\''] + twice(s, '\'') + seq!['\''],
    }
}

/// Arguments with blanks between them.
pub open spec fn spaced(shell: RemoteShell, args: Seq<Seq<char>>) -> Seq<char>
    decreases args.len(),
{
    if args.len() == 0 {
        seq![]
    } else if args.len() == 1 {
        protected(shell, args[0])
    } else {
        protected(shell, args[0]) + seq![' '] + spaced(shell, args.drop_first())
    }
}

/// Quoting protects an argument as its shell asks for it.
pub proof fn quoting_protects(s: Seq<char>)
    ensures
        remote::cmd_quoted(s) == protected(RemoteShell::Cmd, s),
        remote::pwsh_quoted(s) == protected(RemoteShell::PowerShell, s),
{
    reveal_strlit("\"");
    reveal_strlit("'");
    assert("\""@ =~= seq!['"']);
    assert("'"@ =~= seq!['\'']);
    doubled_is_twice(s, '"');
    doubled_is_twice(s, '\'');
    if s.contains(' ') {
        let i = choose|i: int| 0 <= i < s.len() && s[i] == ' ';
        assert(s[i] == ' ');
    }
    if s.contains('\t') {
        let i = choose|i: int| 0 <= i < s.len() && s[i] == '\t';
        assert(s[i] == '\t');
    }
    if has_space(s) {
        let i = choose|i: int| 0 <= i < s.len() && (#[trigger] s[i] == ' ' || s[i] == '\t');
        assert(s.contains(s[i]));
    }
}

proof fn line_is_spaced(shell: RemoteShell, args: Seq<Seq<char>>)
    ensures
        remote::command_line(shell, args) == spaced(shell, args),
    decreases args.len(),
{
    reveal_strlit(" ");
    assert(" "@ =~= seq![' ']);
    let quoted = remote::quoted_args(shell, args);
    if args.len() > 0 {
        quoting_protects(args[0]);
        assert(quoted[0] == protected(shell, args[0]));
    }
    if args.len() > 1 {
        words::joined_from_front(quoted, " "@);
        assert(quoted.drop_first() =~= remote::quoted_args(shell, args.drop_first()));
        line_is_spaced(shell, args.drop_first());
    }
}

/// The variables that are not empty, as assignments with blanks between them.
pub open spec fn exported(vars: Seq<(Seq<char>, Seq<char>)>) -> Seq<char>
    decreases vars.len(),
{
    if vars.len() == 0 {
        seq![]
    } else {
        let rest = exported(vars.drop_first());
        let (name, value) = vars[0];
        if value.len() == 0 {
            rest
        } else if any_value(vars.drop_first()) {
            name + seq!['='] + value + seq![' '] + rest
        } else {
            name + seq!['='] + value
        }
    }
}

/// Whether some variable is not empty.
pub open spec fn any_value(vars: Seq<(Seq<char>, Seq<char>)>) -> bool {
    exists|i: int| 0 <= i < vars.len() && (#[trigger] vars[i]).1.len() > 0
}

proof fn assignments_from_front(vars: Seq<(Seq<char>, Seq<char>)>)
    requires
        vars.len() > 0,
    ensures
        remote::assignments(vars) == (if vars[0].1.len() > 0 {
            seq![remote::assignment(vars[0])]
        } else {
            seq![]
        }) + remote::assignments(vars.drop_first()),
    decreases vars.len(),
{
    let init = vars.drop_last();
    let head = if vars[0].1.len() > 0 {
        seq![remote::assignment(vars[0])]
    } else {
        seq![]
    };
    if vars.len() == 1 {
        assert(remote::assignments(init) =~= seq![]);
        assert(remote::assignments(vars.drop_first()) =~= seq![]);
        assert(remote::assignments(vars) =~= head + remote::assignments(vars.drop_first()));
    } else {
        assignments_from_front(init);
        assert(init.drop_first() =~= vars.drop_first().drop_last());
        assert(vars.drop_first().last() == vars.last());
        assert(remote::assignments(vars) =~= head + remote::assignments(vars.drop_first()));
    }
}

proof fn exports_are_spaced(vars: Seq<(Seq<char>, Seq<char>)>)
    ensures
        words::joined(remote::assignments(vars), " "@) == exported(vars),
        remote::assignments(vars).len() > 0 <==> any_value(vars),
    decreases vars.len(),
{
    reveal_strlit(" ");
    reveal_strlit("=");
    assert(" "@ =~= seq![' ']);
    assert("="@ =~= seq!['=']);
    if vars.len() > 0 {
        let rest = vars.drop_first();
        exports_are_spaced(rest);
        assignments_from_front(vars);
        let list = remote::assignments(vars);
        if any_value(rest) {
            let i = choose|i: int| 0 <= i < rest.len() && (#[trigger] rest[i]).1.len() > 0;
            assert(vars[i + 1] == rest[i]);
        }
        if any_value(vars) && !(vars[0].1.len() > 0) {
            let i = choose|i: int| 0 <= i < vars.len() && (#[trigger] vars[i]).1.len() > 0;
            assert(rest[i - 1] == vars[i]);
        }
        if vars[0].1.len() > 0 {
            assert(list[0] == remote::assignment(vars[0]));
            assert(list.drop_first() =~= remote::assignments(rest));
            if list.len() > 1 {
                words::joined_from_front(list, " "@);
            }
        } else {
            assert(list =~= remote::assignments(rest));
        }
    }
}

/// On a POSIX host the locale is exported first: all variables that are not empty, or UTF-8 if there
/// is none at all.
pub proof fn locale_is_exported(vars: Seq<(Seq<char>, Seq<char>)>)
    ensures
        vars.len() == 0 ==> remote::locale_export(vars) == "export LC_ALL=C.UTF-8"@,
        vars.len() > 0 ==> remote::locale_export(vars) == "export "@ + exported(vars),
{
    exports_are_spaced(vars);
}

/// What a shell is told: to run the first line and, where there is a second one and the first fails,
/// the second, in each case with the log setting if there is one.
pub open spec fn told(
    shell: RemoteShell,
    first: Seq<char>,
    second: Option<Seq<char>>,
    rust_log: Option<Seq<char>>,
) -> Seq<char> {
    match shell {
        RemoteShell::Posix => {
            let run = match rust_log {
                Some(v) => "env RUST_LOG="@ + v + " "@ + first,
                None => first,
            };
            match second {
                Some(second) => "("@ + run + " 2>/dev/null) || "@ + second,
                None => run,
            }
        },
        RemoteShell::Cmd => {
            let run = match second {
                Some(second) => "("@ + first + " 2>nul) || "@ + second,
                None => first,
            };
            match rust_log {
                Some(v) => "set \"RUST_LOG="@ + v + "\" && ("@ + run + ")"@,
                None => run,
            }
        },
        RemoteShell::PowerShell => {
            let run = match second {
                Some(second) => "& "@ + first + " 2>$null; if ($LASTEXITCODE -ne 0) { & "@ + second
                    + " }"@,
                None => "& "@ + first,
            };
            match rust_log {
                Some(v) => "$env:RUST_LOG="@ + protected(RemoteShell::PowerShell, v) + "; "@ + run,
                None => run,
            }
        },
    }
}

/// A launch command tells the shell to run the first arguments and, where there are others, those if
/// the first fail; on a POSIX host the locale is exported before.
pub proof fn commands_are_told(
    shell: RemoteShell,
    first: Seq<Seq<char>>,
    second: Option<Seq<Seq<char>>>,
    rust_log: Option<String>,
    vars: Seq<(Seq<char>, Seq<char>)>,
)
    ensures
        ({
            let log = match rust_log {
                Some(v) => Some(v@),
                None => None::<Seq<char>>,
            };
            let other = match second {
                Some(args) => Some(spaced(shell, args)),
                None => None::<Seq<char>>,
            };
            remote::remote_command(shell, first, second, rust_log, vars) == (if shell
                == RemoteShell::Posix {
                remote::locale_export(vars) + "; "@
            } else {
                seq![]
            }) + told(shell, spaced(shell, first), other, log)
        }),
{
    line_is_spaced(shell, first);
    if let Some(args) = second {
        line_is_spaced(shell, args);
    }
    let one = spaced(shell, first);
    let other = match second {
        Some(args) => Some(spaced(shell, args)),
        None => None::<Seq<char>>,
    };
    let log = match rust_log {
        Some(v) => Some(v@),
        None => None::<Seq<char>>,
    };
    assert(other == remote::optional_line(shell, second));
    if let Some(v) = rust_log {
        quoting_protects(v@);
        reveal_strlit("(env RUST_LOG=");
        reveal_strlit("env RUST_LOG=");
        reveal_strlit("(");
        reveal_strlit("$env:RUST_LOG='");
        reveal_strlit("$env:RUST_LOG=");
        reveal_strlit("'; ");
        reveal_strlit("; ");
        assert("("@ + "env RUST_LOG="@ =~= "(env RUST_LOG="@);
        doubled_is_twice(v@, '\'');
        assert("$env:RUST_LOG='"@ + twice(v@, '\'') + "'; "@ =~= "$env:RUST_LOG="@ + protected(
            RemoteShell::PowerShell,
            v@,
        ) + "; "@);
        if let Some(two) = other {
            let env = "env RUST_LOG="@ + v@ + " "@ + one;
            assert("(env RUST_LOG="@ + v@ + " "@ + one + " 2>/dev/null) || "@ + two =~= "("@ + env
                + " 2>/dev/null) || "@ + two);
        }
    }
    let want = told(shell, one, other, log);
    let got = remote::remote_command(shell, first, second, rust_log, vars);
    match shell {
        RemoteShell::Posix => {
            assert(remote::posix_command(one, other, rust_log) =~= want);
            assert(got =~= remote::locale_export(vars) + "; "@ + want);
        },
        RemoteShell::Cmd => {
            assert(got =~= seq![] + want);
        },
        RemoteShell::PowerShell => {
            assert(got =~= seq![] + want);
        },
    }
}

/// The launch command has the server at the given path run the command of the options, with their
/// address, locale, log file and foreground flag. Where the path is the default one, a second
/// invocation follows that differs from the first in the path alone.
#[verifier::spinoff_prover]
#[verifier::rlimit(60)]
pub proof fn launch_runs_command(
    options: LaunchOptions,
    ip: Option<String>,
    shell: RemoteShell,
    rust_log: Option<String>,
    vars: Seq<(Seq<char>, Seq<char>)>,
    first: Seq<Seq<char>>,
    second: Seq<Seq<char>>,
)
    requires
        is_invocation(
            first,
            options.server_path@,
            ip,
            options.server_log_file,
            options.no_daemonize,
            Seq::new(options.command@.len(), |i: int| options.command@[i]@),
            vars,
        ),
        second == first.update(0, "mosh-server"@),
    ensures
        ({
            let log = match rust_log {
                Some(v) => Some(v@),
                None => None::<Seq<char>>,
            };
            let other = if options.server_path@ == "morsh-server"@ {
                Some(spaced(shell, second))
            } else {
                None::<Seq<char>>
            };
            remote::launch_command(options, ip, shell, rust_log, vars) == (if shell
                == RemoteShell::Posix {
                remote::locale_export(vars) + "; "@
            } else {
                seq![]
            }) + told(shell, spaced(shell, first), other, log)
        }),
{
    let command = Seq::new(options.command@.len(), |i: int| options.command@[i]@);
    assert(command =~= words::strings_view(options.command@));
    arguments_are_those(
        first,
        options.server_path@,
        ip,
        options.server_log_file,
        options.no_daemonize,
        command,
        vars,
    );
    assert(is_invocation(
        second,
        "mosh-server"@,
        ip,
        options.server_log_file,
        options.no_daemonize,
        command,
        vars,
    )) by {
        let c = command_at(ip, options.server_log_file, options.no_daemonize, vars);
        assert forall|k: int| 0 <= k < vars.len() implies #[trigger] tells_variable(
            second,
            locale_at(ip),
            vars,
            k,
        ) by {
            assert(tells_variable(first, locale_at(ip), vars, k));
        }
        assert forall|k: int| 0 <= k < command.len() implies second[c + 1 + k]
            == #[trigger] command[k] by {
            assert(first[c + 1 + k] == command[k]);
        }
    }
    arguments_are_those(
        second,
        "mosh-server"@,
        ip,
        options.server_log_file,
        options.no_daemonize,
        command,
        vars,
    );
    let other = if options.server_path@ == "morsh-server"@ {
        Some(second)
    } else {
        None::<Seq<Seq<char>>>
    };
    commands_are_told(shell, first, other, rust_log, vars);
}

/// The two invocations of a launch command differ in the path of the server alone.
pub proof fn invocations_differ_in_path(
    path: Seq<char>,
    other: Seq<char>,
    ip: Option<String>,
    log_file: Option<String>,
    no_daemonize: bool,
    command: Seq<Seq<char>>,
    vars: Seq<(Seq<char>, Seq<char>)>,
)
    ensures
        ({
            let a = remote::server_args(path, ip, log_file, no_daemonize, command, vars);
            let b = remote::server_args(other, ip, log_file, no_daemonize, command, vars);
            &&& a[0] == path
            &&& b[0] == other
            &&& a.skip(1) == b.skip(1)
            &&& command.len() > 0 ==> a.skip(a.len() - command.len()) == command && a[a.len()
                - command.len() - 1] == "-e"@
        }),
{
    let a = remote::server_args(path, ip, log_file, no_daemonize, command, vars);
    let b = remote::server_args(other, ip, log_file, no_daemonize, command, vars);
    arguments_tell_everything(path, ip, log_file, no_daemonize, command, vars);
    arguments_tell_everything(other, ip, log_file, no_daemonize, command, vars);
    assert(is_invocation(b.update(0, path), path, ip, log_file, no_daemonize, command, vars)) by {
        let t = b.update(0, path);
        let c = command_at(ip, log_file, no_daemonize, vars);
        assert forall|k: int| 0 <= k < vars.len() implies #[trigger] tells_variable(
            t,
            locale_at(ip),
            vars,
            k,
        ) by {
            assert(tells_variable(b, locale_at(ip), vars, k));
        }
        assert forall|k: int| 0 <= k < command.len() implies t[c + 1 + k]
            == #[trigger] command[k] by {
            assert(b[c + 1 + k] == command[k]);
        }
    }
    arguments_are_those(b.update(0, path), path, ip, log_file, no_daemonize, command, vars);
    assert(a.skip(1) =~= b.skip(1));
    if command.len() > 0 {
        assert(a.skip(a.len() - command.len()) =~= command);
    }
}

/// The names by which a shell can be asked for, and no others, are understood.
pub proof fn shells_are_named(value: Seq<char>)
    ensures
        remote::shell_named(value) == Ok::<Option<RemoteShell>, Seq<char>>(None) <==> value
            == "auto"@,
        remote::shell_named(value) == Ok::<Option<RemoteShell>, Seq<char>>(
            Some(RemoteShell::Posix),
        ) <==> value == "posix"@ || value == "sh"@ || value == "bash"@,
        remote::shell_named(value) == Ok::<Option<RemoteShell>, Seq<char>>(Some(RemoteShell::Cmd))
            <==> value == "cmd"@ || value == "cmd.exe"@,
        remote::shell_named(value) == Ok::<Option<RemoteShell>, Seq<char>>(
            Some(RemoteShell::PowerShell),
        ) <==> value == "powershell"@ || value == "pwsh"@,
{
    reveal_strlit("auto");
    reveal_strlit("posix");
    reveal_strlit("sh");
    reveal_strlit("bash");
    reveal_strlit("cmd");
    reveal_strlit("cmd.exe");
    reveal_strlit("powershell");
    reveal_strlit("pwsh");
    assert("auto"@[0] == 'a' && "posix"@[0] == 'p' && "posix"@[1] == 'o' && "sh"@[0] == 's'
        && "bash"@[0] == 'b' && "cmd"@[0] == 'c' && "cmd.exe"@[0] == 'c');
    assert("powershell"@.len() == 10 && "pwsh"@.len() == 4 && "pwsh"@[0] == 'p' && "posix"@.len()
        == 5 && "powershell"@[0] == 'p');
}

/// The `k`-th name and its value, if it is set.
pub open spec fn entry(names: Seq<Seq<char>>, values: Seq<Option<String>>, k: int) -> Option<
    (Seq<char>, Seq<char>),
> {
    match values[k] {
        Some(value) => Some((names[k], value@)),
        None => None,
    }
}

/// The variables that are set are collected, each with its value and in the order of the names, and
/// no others.
pub proof fn set_variables_are_collected(
    names: Seq<Seq<char>>,
    values: Seq<Option<String>>,
    n: int,
)
    requires
        0 <= n <= values.len(),
        values.len() == names.len(),
    ensures
        ({
            let vars = remote::set_vars(names, values, n);
            &&& vars.len() <= n
            &&& forall|k: int|
                0 <= k < n && (#[trigger] entry(names, values, k)) is Some ==> vars.contains(
                    entry(names, values, k).unwrap(),
                )
            &&& forall|i: int|
                0 <= i < vars.len() ==> comes_from(names, values, n, #[trigger] vars[i])
        }),
        n > 0 && values[n - 1] is Some ==> remote::set_vars(names, values, n) == remote::set_vars(
            names,
            values,
            n - 1,
        ).push((names[n - 1], values[n - 1].unwrap()@)),
        n > 0 && values[n - 1] is None ==> remote::set_vars(names, values, n) == remote::set_vars(
            names,
            values,
            n - 1,
        ),
    decreases n,
{
    if n > 0 {
        set_variables_are_collected(names, values, n - 1);
        let before = remote::set_vars(names, values, n - 1);
        let vars = remote::set_vars(names, values, n);
        assert forall|k: int|
            0 <= k < n && (#[trigger] entry(names, values, k)) is Some implies vars.contains(
            entry(names, values, k).unwrap(),
        ) by {
            let pair = entry(names, values, k).unwrap();
            if k < n - 1 {
                assert(before.contains(pair));
                let i = choose|i: int| 0 <= i < before.len() && before[i] == pair;
                assert(vars[i] == pair);
            } else {
                assert(vars[vars.len() - 1] == pair);
            }
        }
        assert forall|i: int| 0 <= i < vars.len() implies comes_from(
            names,
            values,
            n,
            #[trigger] vars[i],
        ) by {
            if i < before.len() {
                assert(vars[i] == before[i]);
                assert(comes_from(names, values, n - 1, before[i]));
                let k = choose|k: int|
                    0 <= k < n - 1 && #[trigger] entry(names, values, k) == Some(before[i]);
                assert(entry(names, values, k) == Some(vars[i]));
            } else {
                assert(entry(names, values, n - 1) == Some(vars[i]));
            }
        }
    }
}

/// Whether a pair is one of the first `n` names with its value.
pub open spec fn comes_from(
    names: Seq<Seq<char>>,
    values: Seq<Option<String>>,
    n: int,
    pair: (Seq<char>, Seq<char>),
) -> bool {
    exists|k: int| 0 <= k < n && #[trigger] entry(names, values, k) == Some(pair)
}

/// The locale is told by fourteen variables: the language, twelve of its aspects, and the one that
/// stands for all.
pub proof fn locale_has_its_variables()
    ensures
        ({
            let names = remote::locale_names_view();
            &&& names.len() == 14
            &&& names[0] == "LANG"@ && names[1] == "LC_CTYPE"@ && names[2] == "LC_NUMERIC"@
            &&& names[3] == "LC_TIME"@ && names[4] == "LC_COLLATE"@ && names[5] == "LC_MONETARY"@
            &&& names[6] == "LC_MESSAGES"@ && names[7] == "LC_PAPER"@ && names[8] == "LC_NAME"@
            &&& names[9] == "LC_ADDRESS"@ && names[10] == "LC_TELEPHONE"@
            &&& names[11] == "LC_MEASUREMENT"@ && names[12] == "LC_IDENTIFICATION"@
            &&& names[13] == "LC_ALL"@
        }),
{
}

/// A shell that is not known is named in the message, with those that are.
pub proof fn unknown_shells_are_named(value: Seq<char>)
    ensures
        remote::shell_named(value) is Err ==> remote::shell_named(value) == Err::<
            Option<RemoteShell>,
            Seq<char>,
        >(
            "error: unknown --remote-shell '"@ + value
                + "' (expected auto, posix, cmd, or powershell)"@,
        ),
{
}

/// A probe that succeeds and answers anything has found a POSIX shell; one that fails, or answers
/// nothing, has found the other kind.
pub proof fn probes_find_shells(success: bool, output: Seq<char>)
    ensures
        remote::shell_found(success, output) == RemoteShell::Posix <==> success && output.len() > 0,
        !success || output.len() == 0 ==> remote::shell_found(success, output) == RemoteShell::Cmd,
{
}

} // verus!
