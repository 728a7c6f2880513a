//! The command that starts a classic server on the remote host.

use crate::words;
use crate::words::join;
use crate::words::same;
use vstd::prelude::*;

verus! {

/// The server and what it is to run.
pub open spec fn server_text(command: Seq<Seq<char>>) -> Seq<char> {
    if command.len() == 0 {
        "mosh-server"@
    } else {
        "mosh-server -e "@ + words::joined(command, " "@)
    }
}

/// The option that tells the server where to bind.
pub open spec fn bind_text(bind_server: Seq<char>) -> Seq<char> {
    if bind_server == "any"@ {
        " -a 0.0.0.0"@
    } else if bind_server == "ssh"@ {
        " -s"@
    } else {
        " -a "@ + bind_server
    }
}

/// The remote command: the server, what it is to run, and where it is to bind.
pub fn remote_command(command: &Vec<String>, bind_server: &str) -> (res: String)
    ensures
        res@ == server_text(words::strings_view(command@)) + bind_text(bind_server@),
{
    let mut out = if command.len() == 0 {
        "mosh-server".to_owned()
    } else {
        let mut s = "mosh-server -e ".to_owned();
        s.push_str(join(command, " ").as_str());
        s
    };
    if same(bind_server, "any") {
        out.push_str(" -a 0.0.0.0");
    } else if same(bind_server, "ssh") {
        out.push_str(" -s");
    } else {
        out.push_str(" -a ");
        out.push_str(bind_server);
        assert(out@ =~= server_text(words::strings_view(command@)) + bind_text(bind_server@));
    }
    out
}

/// The words of the remote command are the server, `-e` and the words of the command, if there is
/// one.
pub proof fn server_runs_command(command: Seq<Seq<char>>)
    requires
        forall|i: int| 0 <= i < command.len() ==> words::is_word(#[trigger] command[i]),
    ensures
        words::words_of(server_text(command)) == if command.len() == 0 {
            seq!["mosh-server"@]
        } else {
            seq!["mosh-server"@, "-e"@] + command
        },
{
    reveal_strlit("mosh-server");
    reveal_strlit("-e");
    reveal_strlit("mosh-server -e ");
    reveal_strlit(" ");
    let blank = seq![' '];
    assert(" "@ =~= blank);
    let server = "mosh-server"@;
    assert(words::is_word(server));
    assert(words::is_word("-e"@));
    if command.len() == 0 {
        let parts = seq![server];
        assert forall|i: int| 0 <= i < parts.len() implies words::is_word(#[trigger] parts[i]) by {}
        words::words_of_joined(parts);
        assert(words::joined(parts, blank) == server);
    } else {
        let two = seq![server, "-e"@];
        let parts = two + command;
        assert forall|i: int| 0 <= i < parts.len() implies words::is_word(#[trigger] parts[i]) by {
            if i >= 2 {
                assert(parts[i] == command[i - 2]);
            }
        }
        words::words_of_joined(parts);
        words::joined_from_front(parts, blank);
        assert(parts.drop_first() =~= seq!["-e"@] + command);
        words::joined_from_front(parts.drop_first(), blank);
        assert(parts.drop_first().drop_first() =~= command);
        assert(server_text(command) =~= words::joined(parts, blank));
    }
}

/// The server binds to every address for `any`, to that of the connection for `ssh`, and else to the
/// address that is given.
pub proof fn server_is_bound(bind_server: Seq<char>)
    ensures
        bind_server == "any"@ ==> bind_text(bind_server) == " -a 0.0.0.0"@,
        bind_server == "ssh"@ ==> bind_text(bind_server) == " -s"@,
        bind_server != "any"@ && bind_server != "ssh"@ ==> bind_text(bind_server) == " -a "@
            + bind_server,
{
    reveal_strlit("any");
    reveal_strlit("ssh");
    assert("any"@[0] == 'a' && "ssh"@[0] == 's');
}

} // verus!
