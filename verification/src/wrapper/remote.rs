//! The command that starts a server on the remote host, for the shell that runs there.

use crate::words;
use crate::words::chars_of;
use crate::words::join;
use crate::words::push_doubled;
use crate::words::same;
use vstd::prelude::*;

verus! {

/// Shell used on the remote host to interpret the launch command.
#[derive(Debug, Clone, Copy, PartialEq, Eq, Structural)]
pub enum RemoteShell {
    Posix,
    Cmd,
    PowerShell,
}

/// The shell that a value names; `Ok(None)` is to be found out.
pub open spec fn shell_named(value: Seq<char>) -> Result<Option<RemoteShell>, Seq<char>> {
    if value == "auto"@ {
        Ok(None)
    } else if value == "posix"@ || value == "sh"@ || value == "bash"@ {
        Ok(Some(RemoteShell::Posix))
    } else if value == "cmd"@ || value == "cmd.exe"@ {
        Ok(Some(RemoteShell::Cmd))
    } else if value == "powershell"@ || value == "pwsh"@ {
        Ok(Some(RemoteShell::PowerShell))
    } else {
        Err(
            "error: unknown --remote-shell '"@ + value
                + "' (expected auto, posix, cmd, or powershell)"@,
        )
    }
}

/// The shell that a value names; `Ok(None)` means that it is to be found out.
pub fn resolve_remote_shell_value(value: &str) -> (res: Result<Option<RemoteShell>, String>)
    ensures
        match res {
            Ok(shell) => shell_named(value@) == Ok::<Option<RemoteShell>, Seq<char>>(shell),
            Err(e) => shell_named(value@) == Err::<Option<RemoteShell>, Seq<char>>(e@),
        },
{
    if same(value, "auto") {
        Ok(None)
    } else if same(value, "posix") || same(value, "sh") || same(value, "bash") {
        Ok(Some(RemoteShell::Posix))
    } else if same(value, "cmd") || same(value, "cmd.exe") {
        Ok(Some(RemoteShell::Cmd))
    } else if same(value, "powershell") || same(value, "pwsh") {
        Ok(Some(RemoteShell::PowerShell))
    } else {
        let mut e = "error: unknown --remote-shell '".to_owned();
        e.push_str(value);
        e.push_str("' (expected auto, posix, cmd, or powershell)");
        Err(e)
    }
}

/// The shell that a probe with a result and an output has found.
pub open spec fn shell_found(success: bool, output: Seq<char>) -> RemoteShell {
    if success && output.len() > 0 {
        RemoteShell::Posix
    } else {
        RemoteShell::Cmd
    }
}

/// The shell that a probe has found: one that knows `uname` is a POSIX shell.
pub fn probed_shell(success: bool, output: &str) -> (res: RemoteShell)
    ensures
        res == shell_found(success, output@),
        res == if success && output@.len() > 0 {
            RemoteShell::Posix
        } else {
            RemoteShell::Cmd
        },
{
    if success && !output.is_empty() {
        RemoteShell::Posix
    } else {
        RemoteShell::Cmd
    }
}

/// The variables that tell the locale.
pub open spec fn locale_names_view() -> Seq<Seq<char>> {
    seq![
        "LANG"@,
        "LC_CTYPE"@,
        "LC_NUMERIC"@,
        "LC_TIME"@,
        "LC_COLLATE"@,
        "LC_MONETARY"@,
        "LC_MESSAGES"@,
        "LC_PAPER"@,
        "LC_NAME"@,
        "LC_ADDRESS"@,
        "LC_TELEPHONE"@,
        "LC_MEASUREMENT"@,
        "LC_IDENTIFICATION"@,
        "LC_ALL"@,
    ]
}

/// The variables that tell the locale.
pub fn locale_names() -> (res: Vec<String>)
    ensures
        words::strings_view(res@) == locale_names_view(),
{
    let mut res: Vec<String> = Vec::new();
    res.push("LANG".to_owned());
    res.push("LC_CTYPE".to_owned());
    res.push("LC_NUMERIC".to_owned());
    res.push("LC_TIME".to_owned());
    res.push("LC_COLLATE".to_owned());
    res.push("LC_MONETARY".to_owned());
    res.push("LC_MESSAGES".to_owned());
    res.push("LC_PAPER".to_owned());
    res.push("LC_NAME".to_owned());
    res.push("LC_ADDRESS".to_owned());
    res.push("LC_TELEPHONE".to_owned());
    res.push("LC_MEASUREMENT".to_owned());
    res.push("LC_IDENTIFICATION".to_owned());
    res.push("LC_ALL".to_owned());
    assert(words::strings_view(res@) =~= locale_names_view());
    res
}

/// The variables that are set, in order. `values` tells of each name what it is set to.
pub open spec fn set_vars(names: Seq<Seq<char>>, values: Seq<Option<String>>, n: int) -> Seq<
    (Seq<char>, Seq<char>),
>
    decreases n,
{
    if n <= 0 {
        seq![]
    } else {
        match values[n - 1] {
            Some(value) => set_vars(names, values, n - 1).push((names[n - 1], value@)),
            None => set_vars(names, values, n - 1),
        }
    }
}

/// The locale variables that are set, in the order of their names. `values` tells of each name what
/// it is set to in the environment.
pub fn collect_locale_vars(values: &Vec<Option<String>>) -> (res: Vec<(String, String)>)
    requires
        values@.len() == locale_names_view().len(),
    ensures
        words::pairs_view(res@) == set_vars(
            locale_names_view(),
            values@,
            values@.len() as int,
        ),
{
    let names = locale_names();
    let ghost all = locale_names_view();
    let mut vars: Vec<(String, String)> = Vec::new();
    let mut i: usize = 0;
    assert(words::pairs_view(vars@) =~= set_vars(all, values@, 0));
    while i < values.len()
        invariant
            i <= values@.len(),
            values@.len() == names@.len(),
            all == words::strings_view(names@),
            words::pairs_view(vars@) == set_vars(all, values@, i as int),
        decreases values@.len() - i,
    {
        let ghost before = words::pairs_view(vars@);
        assert(all[i as int] == names@[i as int]@);
        if let Some(value) = &values[i] {
            vars.push((names[i].clone(), value.clone()));
            assert(words::pairs_view(vars@) =~= before.push((all[i as int], value@)));
        }
        i = i + 1;
        assert(words::pairs_view(vars@) =~= set_vars(all, values@, i as int));
    }
    vars
}

/// The arguments `-l NAME=VALUE` for variables.
pub open spec fn locale_args(vars: Seq<(Seq<char>, Seq<char>)>) -> Seq<Seq<char>>
    decreases vars.len(),
{
    if vars.len() == 0 {
        seq![]
    } else {
        locale_args(vars.drop_last()) + seq!["-l"@, assignment(vars.last())]
    }
}

/// `NAME=VALUE`.
pub open spec fn assignment(var: (Seq<char>, Seq<char>)) -> Seq<char> {
    var.0 + "="@ + var.1
}

/// What may be told to a server.
#[derive(Debug)]
pub struct LaunchOptions {
    /// The path of the server on the remote host.
    pub server_path: String,
    /// Where the server writes its logs.
    pub server_log_file: Option<String>,
    /// Whether the server stays in the foreground.
    pub no_daemonize: bool,
    /// The command to run.
    pub command: Vec<String>,
}

/// What the optional address adds: bind to it, or to that of the SSH connection.
pub open spec fn address_args(ip: Option<String>) -> Seq<Seq<char>> {
    match ip {
        Some(ip) => seq!["-i"@, ip@],
        None => seq!["-s"@],
    }
}

/// What the optional log file adds.
pub open spec fn log_args(path: Option<String>) -> Seq<Seq<char>> {
    match path {
        Some(path) => seq!["--log-file"@, path@],
        None => seq![],
    }
}

/// The arguments for a single server invocation, without any quoting.
pub open spec fn server_args(
    server_path: Seq<char>,
    ip: Option<String>,
    log_file: Option<String>,
    no_daemonize: bool,
    command: Seq<Seq<char>>,
    vars: Seq<(Seq<char>, Seq<char>)>,
) -> Seq<Seq<char>> {
    seq![server_path, "new"@] + address_args(ip) + locale_args(vars) + log_args(log_file) + (
    if no_daemonize {
        seq!["-D"@]
    } else {
        seq![]
    }) + (if command.len() > 0 {
        seq!["-e"@] + command
    } else {
        seq![]
    })
}

/// Appends a string.
fn add_part(parts: &mut Vec<String>, part: String)
    ensures
        words::strings_view(final(parts)@) == words::strings_view(old(parts)@).push(part@),
{
    let ghost before = words::strings_view(parts@);
    let ghost what = part@;
    parts.push(part);
    assert(words::strings_view(parts@) =~= before.push(what));
}

/// Appends the arguments `-l NAME=VALUE` for variables.
fn add_locale_args(parts: &mut Vec<String>, vars: &Vec<(String, String)>)
    ensures
        words::strings_view(final(parts)@) == words::strings_view(old(parts)@) + locale_args(
            words::pairs_view(vars@),
        ),
{
    let ghost before = words::strings_view(parts@);
    let ghost all = words::pairs_view(vars@);
    let mut i: usize = 0;
    assert(words::strings_view(parts@) =~= before + locale_args(all.take(0)));
    while i < vars.len()
        invariant
            i <= vars@.len(),
            all == words::pairs_view(vars@),
            words::strings_view(parts@) == before + locale_args(all.take(i as int)),
        decreases vars@.len() - i,
    {
        let mut value = vars[i].0.clone();
        value.push_str("=");
        value.push_str(vars[i].1.as_str());
        proof {
            let next = all.take(i + 1);
            assert(next.drop_last() =~= all.take(i as int));
            assert(next.last() == all[i as int]);
            assert(value@ =~= assignment(all[i as int]));
        }
        add_part(parts, "-l".to_owned());
        add_part(parts, value);
        i = i + 1;
        assert(words::strings_view(parts@) =~= before + locale_args(all.take(i as int)));
    }
    assert(all.take(all.len() as int) =~= all);
}

/// Builds the arguments for a single server invocation, without any quoting.
pub fn build_server_args(
    server_path: &str,
    resolved_ip: &Option<String>,
    server_log_file: &Option<String>,
    no_daemonize: bool,
    command: &Vec<String>,
    locale_vars: &Vec<(String, String)>,
) -> (res: Vec<String>)
    ensures
        words::strings_view(res@) == server_args(
            server_path@,
            *resolved_ip,
            *server_log_file,
            no_daemonize,
            words::strings_view(command@),
            words::pairs_view(locale_vars@),
        ),
{
    let mut parts: Vec<String> = Vec::new();
    assert(words::strings_view(parts@) =~= Seq::<Seq<char>>::empty());
    add_part(&mut parts, server_path.to_owned());
    add_part(&mut parts, "new".to_owned());
    match resolved_ip {
        Some(ip) => {
            add_part(&mut parts, "-i".to_owned());
            add_part(&mut parts, ip.clone());
        },
        None => {
            add_part(&mut parts, "-s".to_owned());
        },
    }
    let ghost head = seq![server_path@, "new"@] + address_args(*resolved_ip);
    assert(words::strings_view(parts@) =~= head);
    add_locale_args(&mut parts, locale_vars);
    if let Some(path) = server_log_file {
        add_part(&mut parts, "--log-file".to_owned());
        add_part(&mut parts, path.clone());
    }
    let ghost middle = head + locale_args(words::pairs_view(locale_vars@)) + log_args(
        *server_log_file,
    );
    assert(words::strings_view(parts@) =~= middle);
    if no_daemonize {
        add_part(&mut parts, "-D".to_owned());
    }
    if command.len() > 0 {
        add_part(&mut parts, "-e".to_owned());
        let ghost before = words::strings_view(parts@);
        let ghost all = words::strings_view(command@);
        let mut i: usize = 0;
        assert(words::strings_view(parts@) =~= before + all.take(0));
        while i < command.len()
            invariant
                i <= command@.len(),
                all == words::strings_view(command@),
                words::strings_view(parts@) == before + all.take(i as int),
            decreases command@.len() - i,
        {
            assert(all[i as int] == command@[i as int]@);
            add_part(&mut parts, command[i].clone());
            i = i + 1;
            assert(words::strings_view(parts@) =~= before + all.take(i as int));
        }
        assert(all.take(all.len() as int) =~= all);
    }
    assert(words::strings_view(parts@) =~= server_args(
        server_path@,
        *resolved_ip,
        *server_log_file,
        no_daemonize,
        words::strings_view(command@),
        words::pairs_view(locale_vars@),
    ));
    parts
}

/// An argument for cmd.exe: in double quotes if it has a blank or a tab, with its own double quotes
/// doubled.
pub open spec fn cmd_quoted(s: Seq<char>) -> Seq<char> {
    if s.contains(' ') || s.contains('\t') {
        "\""@ + words::doubled(s, '"') + "\""@
    } else {
        s
    }
}

/// Quotes an argument for cmd.exe (double quotes only when needed).
pub fn cmd_quote(s: &str) -> (res: String)
    ensures
        res@ == cmd_quoted(s@),
{
    let chars = chars_of(s);
    let blank: usize = words::find_first(&chars, ' ');
    let tab: usize = words::find_first(&chars, '\t');
    proof {
        words::first_is_first(s@, ' ');
        words::first_is_first(s@, '\t');
    }
    if blank < chars.len() || tab < chars.len() {
        let mut out = "\"".to_owned();
        push_doubled(&mut out, s, '"');
        out.push_str("\"");
        out
    } else {
        s.to_owned()
    }
}

/// An argument for PowerShell: in single quotes, with its own single quotes doubled.
pub open spec fn pwsh_quoted(s: Seq<char>) -> Seq<char> {
    "'"@ + words::doubled(s, '\'') + "'"@
}

/// Quotes an argument for PowerShell (single-quoted literal string).
pub fn pwsh_quote(s: &str) -> (res: String)
    ensures
        res@ == pwsh_quoted(s@),
{
    let mut out = "'".to_owned();
    push_doubled(&mut out, s, '\'');
    out.push_str("'");
    out
}

/// Arguments as the shell takes them.
pub open spec fn quoted_args(shell: RemoteShell, args: Seq<Seq<char>>) -> Seq<Seq<char>> {
    Seq::new(
        args.len(),
        |i: int|
            match shell {
                RemoteShell::Posix => args[i],
                RemoteShell::Cmd => cmd_quoted(args[i]),
                RemoteShell::PowerShell => pwsh_quoted(args[i]),
            },
    )
}

/// A command line for the shell.
pub open spec fn command_line(shell: RemoteShell, args: Seq<Seq<char>>) -> Seq<char> {
    words::joined(quoted_args(shell, args), " "@)
}

/// The command line for the shell.
fn line_for(shell: RemoteShell, args: &Vec<String>) -> (res: String)
    ensures
        res@ == command_line(shell, words::strings_view(args@)),
{
    let ghost all = words::strings_view(args@);
    let ghost want = quoted_args(shell, all);
    let mut quoted: Vec<String> = Vec::new();
    let mut i: usize = 0;
    assert(words::strings_view(quoted@) =~= want.take(0));
    while i < args.len()
        invariant
            i <= args@.len(),
            all == words::strings_view(args@),
            want == quoted_args(shell, all),
            words::strings_view(quoted@) == want.take(i as int),
        decreases args@.len() - i,
    {
        assert(all[i as int] == args@[i as int]@);
        let part = match shell {
            RemoteShell::Posix => args[i].clone(),
            RemoteShell::Cmd => cmd_quote(args[i].as_str()),
            RemoteShell::PowerShell => pwsh_quote(args[i].as_str()),
        };
        add_part(&mut quoted, part);
        i = i + 1;
        assert(words::strings_view(quoted@) =~= want.take(i as int));
    }
    assert(want.take(want.len() as int) =~= want);
    join(&quoted, " ")
}

/// The assignments of the variables that are not empty.
pub open spec fn assignments(vars: Seq<(Seq<char>, Seq<char>)>) -> Seq<Seq<char>>
    decreases vars.len(),
{
    if vars.len() == 0 {
        seq![]
    } else if vars.last().1.len() > 0 {
        assignments(vars.drop_last()).push(assignment(vars.last()))
    } else {
        assignments(vars.drop_last())
    }
}

/// What makes the locale known to a server on a POSIX host. Without any, UTF-8 is still wanted.
pub open spec fn locale_export(vars: Seq<(Seq<char>, Seq<char>)>) -> Seq<char> {
    if vars.len() == 0 {
        "export LC_ALL=C.UTF-8"@
    } else {
        "export "@ + words::joined(assignments(vars), " "@)
    }
}

/// What makes the locale known to a server on a POSIX host.
fn export_locale(vars: &Vec<(String, String)>) -> (res: String)
    ensures
        res@ == locale_export(words::pairs_view(vars@)),
{
    if vars.len() == 0 {
        return "export LC_ALL=C.UTF-8".to_owned();
    }
    let ghost all = words::pairs_view(vars@);
    let mut list: Vec<String> = Vec::new();
    let mut i: usize = 0;
    assert(words::strings_view(list@) =~= assignments(all.take(0)));
    while i < vars.len()
        invariant
            i <= vars@.len(),
            all == words::pairs_view(vars@),
            words::strings_view(list@) == assignments(all.take(i as int)),
        decreases vars@.len() - i,
    {
        proof {
            let next = all.take(i + 1);
            assert(next.drop_last() =~= all.take(i as int));
            assert(next.last() == all[i as int]);
        }
        if !vars[i].1.as_str().is_empty() {
            let mut value = vars[i].0.clone();
            value.push_str("=");
            value.push_str(vars[i].1.as_str());
            assert(value@ =~= assignment(all[i as int]));
            add_part(&mut list, value);
        }
        i = i + 1;
    }
    assert(all.take(all.len() as int) =~= all);
    let mut out = "export ".to_owned();
    out.push_str(join(&list, " ").as_str());
    out
}

/// The launch command for a POSIX shell.
pub open spec fn posix_command(
    first: Seq<char>,
    second: Option<Seq<char>>,
    rust_log: Option<String>,
) -> Seq<char> {
    match (second, rust_log) {
        (Some(second), Some(v)) => "(env RUST_LOG="@ + v@ + " "@ + first + " 2>/dev/null) || "@
            + second,
        (Some(second), None) => "("@ + first + " 2>/dev/null) || "@ + second,
        (None, Some(v)) => "env RUST_LOG="@ + v@ + " "@ + first,
        (None, None) => first,
    }
}

/// The launch command for cmd.exe.
pub open spec fn cmd_command(
    first: Seq<char>,
    second: Option<Seq<char>>,
    rust_log: Option<String>,
) -> Seq<char> {
    let run = match second {
        Some(second) => "("@ + first + " 2>nul) || "@ + second,
        None => first,
    };
    match rust_log {
        Some(v) => "set \"RUST_LOG="@ + v@ + "\" && ("@ + run + ")"@,
        None => run,
    }
}

/// The launch command for PowerShell.
pub open spec fn pwsh_command(
    first: Seq<char>,
    second: Option<Seq<char>>,
    rust_log: Option<String>,
) -> Seq<char> {
    let run = match second {
        Some(second) => "& "@ + first + " 2>$null; if ($LASTEXITCODE -ne 0) { & "@ + second + " }"@,
        None => "& "@ + first,
    };
    match rust_log {
        Some(v) => "$env:RUST_LOG='"@ + words::doubled(v@, '\'') + "'; "@ + run,
        None => run,
    }
}

/// What optional arguments hold.
pub open spec fn optional_args(args: Option<Vec<String>>) -> Option<Seq<Seq<char>>> {
    match args {
        Some(args) => Some(words::strings_view(args@)),
        None => None,
    }
}

/// The optional command line for a shell.
pub open spec fn optional_line(shell: RemoteShell, args: Option<Seq<Seq<char>>>) -> Option<
    Seq<char>,
> {
    match args {
        Some(args) => Some(command_line(shell, args)),
        None => None,
    }
}

/// The full launch command for a shell: the first invocation, and the second where the first fails.
pub open spec fn remote_command(
    shell: RemoteShell,
    first: Seq<Seq<char>>,
    second: Option<Seq<Seq<char>>>,
    rust_log: Option<String>,
    vars: Seq<(Seq<char>, Seq<char>)>,
) -> Seq<char> {
    let one = command_line(shell, first);
    let two = optional_line(shell, second);
    match shell {
        RemoteShell::Posix => locale_export(vars) + "; "@ + posix_command(one, two, rust_log),
        RemoteShell::Cmd => cmd_command(one, two, rust_log),
        RemoteShell::PowerShell => pwsh_command(one, two, rust_log),
    }
}

/// The launch command for a POSIX shell.
fn render_posix(first: &str, second: &Option<String>, rust_log: &Option<String>) -> (res: String)
    ensures
        res@ == posix_command(
            first@,
            match *second {
                Some(s) => Some(s@),
                None => None,
            },
            *rust_log,
        ),
{
    let mut out = String::new();
    match (second, rust_log) {
        (Some(second), Some(v)) => {
            out.push_str("(env RUST_LOG=");
            out.push_str(v.as_str());
            out.push_str(" ");
            out.push_str(first);
            out.push_str(" 2>/dev/null) || ");
            out.push_str(second.as_str());
            assert(out@ =~= "(env RUST_LOG="@ + v@ + " "@ + first@ + " 2>/dev/null) || "@
                + second@);
        },
        (Some(second), None) => {
            out.push_str("(");
            out.push_str(first);
            out.push_str(" 2>/dev/null) || ");
            out.push_str(second.as_str());
            assert(out@ =~= "("@ + first@ + " 2>/dev/null) || "@ + second@);
        },
        (None, Some(v)) => {
            out.push_str("env RUST_LOG=");
            out.push_str(v.as_str());
            out.push_str(" ");
            out.push_str(first);
            assert(out@ =~= "env RUST_LOG="@ + v@ + " "@ + first@);
        },
        (None, None) => {
            out.push_str(first);
            assert(out@ =~= first@);
        },
    }
    out
}

/// The launch command for cmd.exe.
fn render_cmd(first: &str, second: &Option<String>, rust_log: &Option<String>) -> (res: String)
    ensures
        res@ == cmd_command(
            first@,
            match *second {
                Some(s) => Some(s@),
                None => None,
            },
            *rust_log,
        ),
{
    let mut run = String::new();
    match second {
        Some(second) => {
            run.push_str("(");
            run.push_str(first);
            run.push_str(" 2>nul) || ");
            run.push_str(second.as_str());
            assert(run@ =~= "("@ + first@ + " 2>nul) || "@ + second@);
        },
        None => {
            run.push_str(first);
            assert(run@ =~= first@);
        },
    }
    match rust_log {
        Some(v) => {
            let mut out = "set \"RUST_LOG=".to_owned();
            out.push_str(v.as_str());
            out.push_str("\" && (");
            out.push_str(run.as_str());
            out.push_str(")");
            out
        },
        None => run,
    }
}

/// The launch command for PowerShell.
fn render_pwsh(first: &str, second: &Option<String>, rust_log: &Option<String>) -> (res: String)
    ensures
        res@ == pwsh_command(
            first@,
            match *second {
                Some(s) => Some(s@),
                None => None,
            },
            *rust_log,
        ),
{
    let mut run = "& ".to_owned();
    run.push_str(first);
    if let Some(second) = second {
        run.push_str(" 2>$null; if ($LASTEXITCODE -ne 0) { & ");
        run.push_str(second.as_str());
        run.push_str(" }");
    }
    match rust_log {
        Some(v) => {
            let mut out = "$env:RUST_LOG='".to_owned();
            push_doubled(&mut out, v.as_str(), '\'');
            out.push_str("'; ");
            out.push_str(run.as_str());
            out
        },
        None => run,
    }
}

/// Renders the full remote launch command for the given remote shell.
///
/// `first` is always run; when `second` is provided it is used as a fallback. The locale variables
/// are exported on POSIX remotes.
pub fn render_remote_command(
    shell: RemoteShell,
    first: &Vec<String>,
    second: &Option<Vec<String>>,
    rust_log: &Option<String>,
    locale_vars: &Vec<(String, String)>,
) -> (res: String)
    ensures
        res@ == remote_command(
            shell,
            words::strings_view(first@),
            optional_args(*second),
            *rust_log,
            words::pairs_view(locale_vars@),
        ),
{
    let one = line_for(shell, first);
    let two = match second {
        Some(args) => Some(line_for(shell, args)),
        None => None,
    };
    match shell {
        RemoteShell::Posix => {
            let mut out = export_locale(locale_vars);
            out.push_str("; ");
            out.push_str(render_posix(one.as_str(), &two, rust_log).as_str());
            out
        },
        RemoteShell::Cmd => render_cmd(one.as_str(), &two, rust_log),
        RemoteShell::PowerShell => render_pwsh(one.as_str(), &two, rust_log),
    }
}

/// The launch command for options: unless another server is asked for, `mosh-server` is tried where
/// `morsh-server` fails.
pub open spec fn launch_command(
    options: LaunchOptions,
    ip: Option<String>,
    shell: RemoteShell,
    rust_log: Option<String>,
    vars: Seq<(Seq<char>, Seq<char>)>,
) -> Seq<char> {
    let command = words::strings_view(options.command@);
    let invocation = |path: Seq<char>|
        server_args(path, ip, options.server_log_file, options.no_daemonize, command, vars);
    remote_command(
        shell,
        invocation(options.server_path@),
        if options.server_path@ == "morsh-server"@ {
            Some(invocation("mosh-server"@))
        } else {
            None
        },
        rust_log,
        vars,
    )
}

/// Builds the launch command.
pub fn build_remote_cmd(
    options: &LaunchOptions,
    resolved_ip: &Option<String>,
    shell: RemoteShell,
    rust_log: &Option<String>,
    locale_vars: &Vec<(String, String)>,
) -> (res: String)
    ensures
        res@ == launch_command(
            *options,
            *resolved_ip,
            shell,
            *rust_log,
            words::pairs_view(locale_vars@),
        ),
{
    let first = build_server_args(
        options.server_path.as_str(),
        resolved_ip,
        &options.server_log_file,
        options.no_daemonize,
        &options.command,
        locale_vars,
    );
    if same(options.server_path.as_str(), "morsh-server") {
        let second = build_server_args(
            "mosh-server",
            resolved_ip,
            &options.server_log_file,
            options.no_daemonize,
            &options.command,
            locale_vars,
        );
        render_remote_command(shell, &first, &Some(second), rust_log, locale_vars)
    } else {
        render_remote_command(shell, &first, &None, rust_log, locale_vars)
    }
}

/// Quoting for PowerShell is lossless: texts that are quoted alike are the same.
pub proof fn pwsh_quote_injective(a: Seq<char>, b: Seq<char>)
    requires
        pwsh_quoted(a) == pwsh_quoted(b),
    ensures
        a == b,
{
    reveal_strlit("'");
    let p = pwsh_quoted(a);
    let q = pwsh_quoted(b);
    assert(p.subrange(1, p.len() - 1) =~= words::doubled(a, '\''));
    assert(q.subrange(1, q.len() - 1) =~= words::doubled(b, '\''));
    words::doubled_injective(a, b, '\'');
}

} // verus!
