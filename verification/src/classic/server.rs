//! The classic server: its options, and when it updates the client.

use crate::network::connection::Address;
use crate::network::fragment::Fragment;
use crate::network::untimed;
use crate::network::untimed::Transport;
use crate::network::untimed::UntimedTransportView;
use crate::statesync::complete::Complete;
use crate::statesync::complete::CompleteView;
use crate::statesync::replay;
use crate::statesync::vt;
use crate::terminal::runs;
use crate::terminal::snapshot;
use crate::text;
use crate::text::push_decimal;
use crate::time;
use crate::time::Instant;
use crate::words;
use crate::words::explain_port;
use crate::words::parse_port;
use crate::words::same;
use vstd::prelude::*;

verus! {

/// Updates are at least this far apart.
pub const UPDATE_INTERVAL_MS: u64 = 50;

/// The options of a server.
#[derive(Debug)]
pub struct ServerOptions {
    /// The port to bind to; any if it is zero.
    pub port: u16,
    /// The address to bind to.
    pub bind_addr: String,
    /// The command and arguments to run.
    pub command_args: Vec<String>,
}

/// What the options of a server say.
#[verifier::ext_equal]
pub struct OptionsView {
    pub port: u16,
    pub bind_addr: Seq<char>,
    pub command_args: Seq<Seq<char>>,
}

impl View for ServerOptions {
    type V = OptionsView;

    open spec fn view(&self) -> OptionsView {
        OptionsView {
            port: self.port,
            bind_addr: self.bind_addr@,
            command_args: words::strings_view(self.command_args@),
        }
    }
}

/// The options before any argument was read.
pub open spec fn no_options() -> OptionsView {
    OptionsView { port: 0, bind_addr: "0.0.0.0"@, command_args: Seq::empty() }
}

/// What arguments say, added to what those before them said; or why they say nothing. An option takes
/// the argument after it. A later option replaces an earlier one.
pub open spec fn options_of(args: Seq<Seq<char>>, so_far: OptionsView) -> Result<
    OptionsView,
    Seq<char>,
>
    decreases args.len(),
{
    if args.len() == 0 {
        Ok(so_far)
    } else if args[0] == "-p"@ || args[0] == "-a"@ {
        if args.len() == 1 {
            Err("Missing value for "@ + args[0])
        } else if args[0] == "-a"@ {
            options_of(args.skip(2), OptionsView { bind_addr: args[1], ..so_far })
        } else {
            match words::port_of(args[1]) {
                Some(port) => options_of(args.skip(2), OptionsView { port, ..so_far }),
                None => Err("Invalid port: "@ + words::port_error(args[1])),
            }
        }
    } else {
        options_of(
            args.skip(1),
            OptionsView { command_args: so_far.command_args.push(args[0]), ..so_far },
        )
    }
}

/// Reads the arguments of a server, without its own name.
pub fn parse_args(args: &Vec<String>) -> (res: Result<ServerOptions, String>)
    ensures
        match res {
            Ok(options) => options_of(words::strings_view(args@), no_options()) == Ok::<
                OptionsView,
                Seq<char>,
            >(options@),
            Err(e) => options_of(words::strings_view(args@), no_options()) == Err::<
                OptionsView,
                Seq<char>,
            >(e@),
        },
{
    let ghost all = words::strings_view(args@);
    let mut options = ServerOptions {
        port: 0,
        bind_addr: "0.0.0.0".to_owned(),
        command_args: Vec::new(),
    };
    let mut i: usize = 0;
    assert(options@ =~= no_options());
    assert(all.skip(0) =~= all);
    while i < args.len()
        invariant
            i <= args@.len(),
            all == words::strings_view(args@),
            options_of(all.skip(i as int), options@) == options_of(all, no_options()),
        decreases args@.len() - i,
    {
        let ghost rest = all.skip(i as int);
        assert(rest[0] == args@[i as int]@);
        let arg = args[i].as_str();
        if same(arg, "-p") || same(arg, "-a") {
            if i + 1 == args.len() {
                let mut e = "Missing value for ".to_owned();
                e.push_str(arg);
                return Err(e);
            }
            assert(rest[1] == args@[i + 1]@);
            assert(rest.skip(2) =~= all.skip(i + 2));
            let value = args[i + 1].as_str();
            let ghost before = options@;
            if same(arg, "-a") {
                options.bind_addr = value.to_owned();
                assert(options@ =~= (OptionsView { bind_addr: value@, ..before }));
            } else {
                match parse_port(value) {
                    Some(port) => {
                        options.port = port;
                        assert(options@ =~= (OptionsView { port, ..before }));
                    },
                    None => {
                        let mut e = "Invalid port: ".to_owned();
                        e.push_str(explain_port(value).as_str());
                        proof {
                            reveal_strlit("-p");
                            reveal_strlit("-a");
                        }
                        return Err(e);
                    },
                }
            }
            i = i + 2;
        } else {
            let ghost before = options@;
            assert(rest.skip(1) =~= all.skip(i + 1));
            options.command_args.push(arg.to_owned());
            assert(options@ =~= (OptionsView {
                command_args: before.command_args.push(arg@),
                ..before
            }));
            i = i + 1;
        }
    }
    assert(all.skip(i as int) =~= Seq::<Seq<char>>::empty());
    Ok(options)
}

/// The line that tells where a server listens, and its key.
pub open spec fn listening_text(ip: Seq<char>, port: u16, key: Seq<char>) -> Seq<char> {
    "MOSH CONNECT "@ + ip + " "@ + text::decimal(port as nat) + " "@ + key
}

/// The line that tells where the server listens, and its key.
pub fn listening_line(ip: &str, port: u16, key: &str) -> (res: String)
    ensures
        res@ == listening_text(ip@, port, key@),
{
    let mut s = "MOSH CONNECT ".to_owned();
    s.push_str(ip);
    s.push_str(" ");
    push_decimal(&mut s, port as u64);
    s.push_str(" ");
    s.push_str(key);
    s
}

/// What a server holds.
#[verifier::ext_equal]
pub struct ServerView {
    pub transport: UntimedTransportView,
    pub terminal: CompleteView,
    /// What the client is assumed to show.
    pub assumed: CompleteView,
    pub last_update: Instant,
}

impl ServerView {
    /// A server that has just started.
    pub open spec fn fresh(transport: UntimedTransportView, now: Instant) -> ServerView {
        let blank = CompleteView { screen: snapshot::blank_screen(80, 24), echo_ack: 0 };
        ServerView { transport, terminal: blank, assumed: blank, last_update: now }
    }

    /// The update that is due, if one is: something has changed, and the last update is long enough
    /// ago.
    pub open spec fn update(self, now: Instant) -> Option<Seq<u8>> {
        let diff = vstd::utf8::encode_utf8(
            runs::run_update(self.assumed.screen, self.terminal.screen),
        );
        if diff.len() > 0 && time::nanos_between(self.last_update, now) >= UPDATE_INTERVAL_MS
            * 1_000_000 {
            Some(diff)
        } else {
            None
        }
    }

    /// After the program wrote something.
    pub open spec fn after_output(self, data: Seq<u8>) -> ServerView {
        ServerView {
            terminal: CompleteView {
                screen: vt::written_to(self.terminal.screen, data),
                ..self.terminal
            },
            ..self
        }
    }

    /// After the client was updated.
    pub open spec fn after_update(self, now: Instant) -> ServerView {
        ServerView {
            transport: self.transport.after_sent(now),
            assumed: self.terminal,
            last_update: now,
            ..self
        }
    }
}

/// The state of a server.
pub struct Server {
    pub transport: Transport,
    pub terminal_state: Complete,
    pub client_assumed_state: Complete,
    pub last_send_time: Instant,
}

impl View for Server {
    type V = ServerView;

    open spec fn view(&self) -> ServerView {
        ServerView {
            transport: self.transport@,
            terminal: self.terminal_state@,
            assumed: self.client_assumed_state@,
            last_update: self.last_send_time,
        }
    }
}

impl Server {
    /// The transport is well-formed, and so are the screens.
    pub open spec fn wf(&self) -> bool {
        &&& self.transport.wf()
        &&& self@.terminal.screen.wf()
        &&& self@.assumed.screen.wf()
    }

    /// A server that starts at a given time, with a blank screen of the usual dimensions.
    pub fn new(transport: Transport, now: Instant) -> (res: Result<Self, String>)
        requires
            transport.wf(),
        ensures
            res matches Ok(s) && s.wf() && s@ == ServerView::fresh(transport@, now),
    {
        match (Complete::new(80, 24), Complete::new(80, 24)) {
            (Ok(terminal_state), Ok(client_assumed_state)) => Ok(
                Server { transport, terminal_state, client_assumed_state, last_send_time: now },
            ),
            (Err(e), _) | (_, Err(e)) => Err(e),
        }
    }

    /// Handles output of the program.
    pub fn on_output(&mut self, data: &[u8])
        requires
            old(self).wf(),
        ensures
            final(self).wf(),
            final(self)@ == old(self)@.after_output(data@),
    {
        proof {
            replay::writing_keeps_shape(self@.terminal.screen, data@);
        }
        self.terminal_state.apply_string(data);
    }

    /// The update that is due, if one is.
    pub fn due_update(&self, now: Instant) -> (res: Option<Vec<u8>>)
        requires
            self.wf(),
        ensures
            match res {
                Some(diff) => self@.update(now) == Some(diff@),
                None => self@.update(now) is None,
            },
    {
        let diff = self.terminal_state.diff_from(&self.client_assumed_state);
        if diff.len() > 0 && now.nanos.saturating_sub(self.last_send_time.nanos)
            >= UPDATE_INTERVAL_MS * 1_000_000 {
            Some(diff)
        } else {
            None
        }
    }

    /// The fragments for an update. It acknowledges nothing. Once they are sent, call
    /// [`Server::update_sent`].
    pub fn send_update(&mut self, diff: Vec<u8>) -> (res: Result<(Address, Vec<Fragment>), String>)
        requires
            old(self).wf(),
            old(self)@.transport.sender.state_num < u64::MAX,
        ensures
            final(self).wf(),
            final(self)@ == (ServerView {
                transport: UntimedTransportView {
                    connection: final(self)@.transport.connection,
                    ..old(self)@.transport
                },
                ..old(self)@
            }),
            untimed::dispatched(
                old(self)@.transport.connection,
                old(self)@.transport.sender.next_instruction(
                    diff@,
                    0,
                    old(self)@.transport.sender.throwaway_num,
                ),
                res,
                final(self)@.transport.connection,
            ),
    {
        let throwaway: u64 = self.transport.sender.throwaway_num();
        self.transport.send_diff(diff, 0, throwaway)
    }

    /// Marks that the update was sent: the client now shows what the terminal shows.
    pub fn update_sent(&mut self, now: Instant)
        requires
            old(self).wf(),
            old(self)@.transport.sender.state_num < u64::MAX,
        ensures
            final(self).wf(),
            final(self)@ == old(self)@.after_update(now),
    {
        self.client_assumed_state = self.terminal_state.clone();
        self.transport.mark_sent(now);
        self.last_send_time = now;
    }
}

/// Updates are spaced: after one, none is due before the interval has passed, whatever the program
/// writes.
pub proof fn updates_are_spaced(s: ServerView, sent: Instant, data: Seq<u8>, now: Instant)
    requires
        time::nanos_between(sent, now) < UPDATE_INTERVAL_MS * 1_000_000,
    ensures
        s.after_update(sent).update(now) is None,
        s.after_update(sent).after_output(data).update(now) is None,
{
}

/// Arguments without options are the command, in order.
pub proof fn plain_arguments_are_the_command(args: Seq<Seq<char>>, so_far: OptionsView)
    requires
        forall|i: int| 0 <= i < args.len() ==> #[trigger] args[i] != "-p"@ && args[i] != "-a"@,
    ensures
        options_of(args, so_far) == Ok::<OptionsView, Seq<char>>(
            OptionsView { command_args: so_far.command_args + args, ..so_far },
        ),
    decreases args.len(),
{
    if args.len() == 0 {
        assert(so_far.command_args + args =~= so_far.command_args);
    } else {
        let next = OptionsView { command_args: so_far.command_args.push(args[0]), ..so_far };
        assert forall|i: int| 0 <= i < args.skip(1).len() implies #[trigger] args.skip(1)[i]
            != "-p"@ && args.skip(1)[i] != "-a"@ by {
            assert(args.skip(1)[i] == args[i + 1]);
        }
        plain_arguments_are_the_command(args.skip(1), next);
        assert(next.command_args + args.skip(1) =~= so_far.command_args + args);
    }
}

/// Before any argument the port is open, the address is any, and there is no command.
pub proof fn options_start_open()
    ensures
        no_options().port == 0,
        no_options().bind_addr == "0.0.0.0"@,
        no_options().command_args.len() == 0,
{
}

/// `-a` takes the address after it, and `-p` the port; what stands before and after them is read as
/// if they were not there. A port that is none is refused, and so is an option without its value.
pub proof fn options_take_values(value: Seq<char>, rest: Seq<Seq<char>>, so_far: OptionsView)
    ensures
        options_of(seq!["-a"@, value] + rest, so_far) == options_of(
            rest,
            OptionsView {
                port: so_far.port,
                bind_addr: value,
                command_args: so_far.command_args,
            },
        ),
        match words::port_of(value) {
            Some(port) => options_of(seq!["-p"@, value] + rest, so_far) == options_of(
                rest,
                OptionsView {
                    port,
                    bind_addr: so_far.bind_addr,
                    command_args: so_far.command_args,
                },
            ),
            None => options_of(seq!["-p"@, value] + rest, so_far) == Err::<OptionsView, Seq<char>>(
                "Invalid port: "@ + words::port_error(value),
            ),
        },
        options_of(seq!["-a"@], so_far) == Err::<OptionsView, Seq<char>>(
            "Missing value for "@ + "-a"@,
        ),
        options_of(seq!["-p"@], so_far) == Err::<OptionsView, Seq<char>>(
            "Missing value for "@ + "-p"@,
        ),
        value != "-a"@ && value != "-p"@ ==> options_of(seq![value] + rest, so_far) == options_of(
            rest,
            OptionsView {
                port: so_far.port,
                bind_addr: so_far.bind_addr,
                command_args: so_far.command_args.push(value),
            },
        ),
{
    reveal_strlit("-a");
    reveal_strlit("-p");
    assert("-a"@[1] == 'a' && "-p"@[1] == 'p');
    assert((seq!["-a"@, value] + rest).skip(2) =~= rest);
    assert((seq!["-p"@, value] + rest).skip(2) =~= rest);
    assert((seq![value] + rest).skip(1) =~= rest);
}

/// The line that tells where a server listens has five words.
pub proof fn listening_line_has_five_words(ip: Seq<char>, port: u16, key: Seq<char>)
    requires
        words::is_word(ip),
        words::is_word(key),
    ensures
        words::words_of(listening_text(ip, port, key)) == seq![
            seq!['M', 'O', 'S', 'H'],
            seq!['C', 'O', 'N', 'N', 'E', 'C', 'T'],
            ip,
            text::decimal(port as nat),
            key,
        ],
{
    reveal_strlit("MOSH CONNECT ");
    reveal_strlit(" ");
    let mosh = seq!['M', 'O', 'S', 'H'];
    let connect = seq!['C', 'O', 'N', 'N', 'E', 'C', 'T'];
    let number = text::decimal(port as nat);
    let blank = seq![' '];
    let parts = seq![mosh, connect, ip, number, key];
    text::decimal_roundtrip(port as nat);
    assert(words::is_word(number)) by {
        assert forall|k: int| 0 <= k < number.len() implies !words::is_space(
            #[trigger] number[k],
        ) by {
            assert(text::is_digit_char(number[k]));
        }
    }
    assert forall|i: int| 0 <= i < parts.len() implies words::is_word(#[trigger] parts[i]) by {}
    words::words_of_joined(parts);
    let four = parts.drop_first();
    let three = four.drop_first();
    let two = three.drop_first();
    let one = two.drop_first();
    words::joined_from_front(parts, blank);
    words::joined_from_front(four, blank);
    words::joined_from_front(three, blank);
    words::joined_from_front(two, blank);
    assert(one =~= seq![key]);
    assert(words::joined(one, blank) == key);
    assert(listening_text(ip, port, key) =~= words::joined(parts, blank));
}

/// An update is due fifty milliseconds after the last one, if there is anything to tell: what turns
/// the screen that the client shows into that of the terminal. Once it is sent, the client shows
/// what the terminal shows; output of the program reaches the terminal alone.
pub proof fn updates_tell_changes(s: ServerView, data: Seq<u8>, now: Instant)
    ensures
        ({
            let diff = vstd::utf8::encode_utf8(
                runs::run_update(s.assumed.screen, s.terminal.screen),
            );
            s.update(now) == if diff.len() > 0 && now.nanos >= s.last_update.nanos + 50_000_000 {
                Some(diff)
            } else {
                None
            }
        }),
        s.after_update(now).assumed == s.terminal,
        s.after_update(now).terminal == s.terminal,
        s.after_update(now).last_update == now,
        s.after_output(data).terminal.screen == vt::written_to(s.terminal.screen, data),
        s.after_output(data).terminal.echo_ack == s.terminal.echo_ack,
        s.after_output(data).assumed == s.assumed,
        s.after_output(data).last_update == s.last_update,
        s.after_output(data).transport == s.transport,
{
}

/// A server starts with a blank screen of twenty-four rows of eighty columns, which the client shows
/// too.
pub proof fn servers_start_blank(transport: UntimedTransportView, now: Instant)
    ensures
        ({
            let s = ServerView::fresh(transport, now);
            &&& s.terminal.screen == snapshot::blank_screen(80, 24)
            &&& s.assumed.screen == snapshot::blank_screen(80, 24)
            &&& s.terminal.echo_ack == 0
            &&& s.last_update == now
            &&& s.transport == transport
        }),
{
}

} // verus!
