//! How a server leaves the terminal that it was started from.

use crate::words;
use crate::words::chars_of;
use crate::words::find_first;
use crate::words::join;
use vstd::prelude::*;

verus! {

/// How a server runs.
#[derive(Debug, Clone, Copy, PartialEq, Eq, Structural)]
pub enum StartMode {
    /// As the daemon: its streams are redirected, and it says nothing of where it listens.
    Daemon,
    /// In the foreground.
    Foreground,
    /// It says where it listens, and then detaches.
    Detach,
}

/// How a server runs.
pub open spec fn mode_for(no_daemonize: bool, is_daemon_child: bool) -> StartMode {
    if is_daemon_child {
        StartMode::Daemon
    } else if no_daemonize {
        StartMode::Foreground
    } else {
        StartMode::Detach
    }
}

/// How a server runs: a daemon stays one; any other server detaches unless it is told not to.
pub fn start_mode(no_daemonize: bool, is_daemon_child: bool) -> (res: StartMode)
    ensures
        res == mode_for(no_daemonize, is_daemon_child),
        res == if is_daemon_child {
            StartMode::Daemon
        } else if no_daemonize {
            StartMode::Foreground
        } else {
            StartMode::Detach
        },
{
    if is_daemon_child {
        StartMode::Daemon
    } else if no_daemonize {
        StartMode::Foreground
    } else {
        StartMode::Detach
    }
}

/// An argument in double quotes if it has a blank.
pub open spec fn quoted(s: Seq<char>) -> Seq<char> {
    if s.contains(' ') {
        "\""@ + s + "\""@
    } else {
        s
    }
}

/// Arguments, each in double quotes if it has a blank.
pub open spec fn quoted_all(args: Seq<Seq<char>>) -> Seq<Seq<char>> {
    Seq::new(args.len(), |i: int| quoted(args[i]))
}

/// Puts an argument in double quotes if it has a blank.
fn quote(s: &str) -> (res: String)
    ensures
        res@ == quoted(s@),
{
    let chars = chars_of(s);
    let n: usize = find_first(&chars, ' ');
    proof {
        words::first_is_first(s@, ' ');
    }
    if n < chars.len() {
        let mut out = "\"".to_owned();
        out.push_str(s);
        out.push_str("\"");
        out
    } else {
        s.to_owned()
    }
}

/// The command line for a program and its arguments.
pub fn command_line(exe: &str, args: &Vec<String>) -> (res: String)
    ensures
        res@ == words::joined(
            seq![quoted(exe@)] + quoted_all(words::strings_view(args@)),
            " "@,
        ),
{
    let ghost all = quoted_all(words::strings_view(args@));
    let mut parts: Vec<String> = Vec::new();
    parts.push(quote(exe));
    let mut i: usize = 0;
    assert(words::strings_view(parts@) =~= seq![quoted(exe@)] + all.take(0));
    while i < args.len()
        invariant
            i <= args@.len(),
            all == quoted_all(words::strings_view(args@)),
            words::strings_view(parts@) == seq![quoted(exe@)] + all.take(i as int),
        decreases args@.len() - i,
    {
        let ghost before = words::strings_view(parts@);
        parts.push(quote(args[i].as_str()));
        assert(words::strings_view(parts@) =~= before.push(all[i as int]));
        i = i + 1;
        assert(words::strings_view(parts@) =~= seq![quoted(exe@)] + all.take(i as int));
    }
    assert(all.take(all.len() as int) =~= all);
    join(&parts, " ")
}

/// An argument without a blank stands as it is; one with a blank stands between double quotes.
pub proof fn blanks_are_quoted(s: Seq<char>)
    ensures
        (forall|i: int| 0 <= i < s.len() ==> #[trigger] s[i] != ' ') ==> quoted(s) == s,
        (exists|i: int| 0 <= i < s.len() && #[trigger] s[i] == ' ') ==> quoted(s) == seq!['"'] + s
            + seq!['"'],
{
    reveal_strlit("\"");
    assert("\""@ =~= seq!['"']);
    if s.contains(' ') {
        let i = choose|i: int| 0 <= i < s.len() && s[i] == ' ';
        assert(s[i] == ' ');
    }
    if exists|i: int| 0 <= i < s.len() && #[trigger] s[i] == ' ' {
        assert(s.contains(' '));
    }
}

/// A daemon is a daemon whatever it is told. Any other server is in the foreground exactly if it is
/// told so, and detaches exactly if it is not.
pub proof fn servers_detach_unless_told(no_daemonize: bool)
    ensures
        mode_for(no_daemonize, true) == StartMode::Daemon,
        mode_for(no_daemonize, false) == StartMode::Foreground <==> no_daemonize,
        mode_for(no_daemonize, false) == StartMode::Detach <==> !no_daemonize,
{
}

} // verus!
