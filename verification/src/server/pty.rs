//! The program that the server runs in a terminal, and how large that is.

use crate::proto::client;
use crate::proto::client::InstructionView;
use crate::proto::client::KeystrokeView;
use crate::proto::client::ResizeMessage;
use crate::proto::client::UserMessage;
use crate::statesync::user_stream;
use crate::statesync::user_stream::UserEvent;
use crate::words;
use crate::words::join;
use vstd::prelude::*;

verus! {

/// The dimensions of a terminal.
#[derive(Debug, Clone, Copy, PartialEq, Eq, Structural)]
pub struct PtySize {
    pub rows: u16,
    pub cols: u16,
}

/// The dimensions before the client has told any.
pub open spec fn default_size() -> PtySize {
    PtySize { rows: 24, cols: 80 }
}

impl PtySize {
    /// The dimensions before the client has told any.
    pub fn usual() -> (res: PtySize)
        ensures
            res == default_size(),
    {
        PtySize { rows: 24, cols: 80 }
    }
}

/// The low 16 bits of a number.
pub open spec fn low16(v: i32) -> u16 {
    (v as int % 0x1_0000) as u16
}

/// The low 16 bits of a number.
fn low_bits(v: i32) -> (res: u16)
    ensures
        res == low16(v),
{
    let shifted: i64 = v as i64 + 0x8000_0000;
    (shifted as u64 % 0x1_0000) as u16
}

/// The dimensions that a message tells, where what it leaves out is the default.
pub open spec fn size_of(resize: ResizeMessage) -> PtySize {
    PtySize {
        rows: low16(
            match resize.height {
                Some(h) => h,
                None => 24,
            },
        ),
        cols: low16(
            match resize.width {
                Some(w) => w,
                None => 80,
            },
        ),
    }
}

/// The dimensions that a message tells, where what it leaves out is the default.
pub fn requested_size(resize: &ResizeMessage) -> (res: PtySize)
    ensures
        res == size_of(*resize),
{
    let height: i32 = match resize.height {
        Some(h) => h,
        None => 24,
    };
    let width: i32 = match resize.width {
        Some(w) => w,
        None => 80,
    };
    PtySize { rows: low_bits(height), cols: low_bits(width) }
}

/// The last dimensions that instructions tell, or those before.
pub open spec fn last_size(list: Seq<InstructionView>, size: PtySize) -> PtySize
    decreases list.len(),
{
    if list.len() == 0 {
        size
    } else {
        match list.last().resize {
            Some(resize) => size_of(resize),
            None => last_size(list.drop_last(), size),
        }
    }
}

/// The dimensions that the first diff of a client asks for.
pub open spec fn first_size(diff: Seq<u8>) -> PtySize {
    match client::message_of(diff) {
        Some(list) => last_size(list, default_size()),
        None => default_size(),
    }
}

/// The dimensions that the first diff of a client asks for: the last that it tells. A diff that
/// cannot be read asks for the default.
pub fn initial_size(diff: &[u8]) -> (res: PtySize)
    ensures
        res == first_size(diff@),
{
    let mut size = PtySize::usual();
    if let Ok(msg) = UserMessage::decode(diff) {
        let mut i: usize = 0;
        assert(msg@.take(0) =~= Seq::<InstructionView>::empty());
        while i < msg.instruction.len()
            invariant
                i <= msg.instruction@.len(),
                size == last_size(msg@.take(i as int), default_size()),
            decreases msg.instruction@.len() - i,
        {
            let inst = &msg.instruction[i];
            proof {
                let next = msg@.take(i + 1);
                assert(next.drop_last() =~= msg@.take(i as int));
                assert(next.last() == inst@);
            }
            if let Some(resize) = &inst.resize {
                size = requested_size(resize);
            }
            i = i + 1;
        }
        assert(msg@.take(msg@.len() as int) =~= msg@);
    }
    size
}

/// Something that a client asks for.
#[derive(Debug)]
pub enum ClientAction {
    /// Write bytes to the program.
    Write(Vec<u8>),
    /// Change the dimensions of the terminal.
    Resize(PtySize),
}

/// What an action holds.
#[verifier::ext_equal]
pub enum ActionView {
    Write(Seq<u8>),
    Resize(PtySize),
}

impl View for ClientAction {
    type V = ActionView;

    open spec fn view(&self) -> ActionView {
        match self {
            ClientAction::Write(bytes) => ActionView::Write(bytes@),
            ClientAction::Resize(size) => ActionView::Resize(*size),
        }
    }
}

/// What actions hold.
pub open spec fn actions_view(list: Seq<ClientAction>) -> Seq<ActionView> {
    Seq::new(list.len(), |i: int| list[i]@)
}

/// What an instruction asks for: its keys, then its dimensions.
pub open spec fn actions_in(inst: InstructionView) -> Seq<ActionView> {
    (match inst.keystroke {
        Some(KeystrokeView { keys: Some(keys) }) => seq![ActionView::Write(keys)],
        _ => seq![],
    }) + (match inst.resize {
        Some(resize) => seq![ActionView::Resize(size_of(resize))],
        None => seq![],
    })
}

/// What instructions ask for, in order.
pub open spec fn actions_of(list: Seq<InstructionView>) -> Seq<ActionView>
    decreases list.len(),
{
    if list.len() == 0 {
        seq![]
    } else {
        actions_of(list.drop_last()) + actions_in(list.last())
    }
}

/// What a message asks for, in order.
pub fn client_actions(msg: &UserMessage) -> (res: Vec<ClientAction>)
    ensures
        actions_view(res@) == actions_of(msg@),
{
    let mut out: Vec<ClientAction> = Vec::new();
    let mut i: usize = 0;
    assert(msg@.take(0) =~= Seq::<InstructionView>::empty());
    assert(actions_view(out@) =~= Seq::<ActionView>::empty());
    while i < msg.instruction.len()
        invariant
            i <= msg.instruction@.len(),
            actions_view(out@) == actions_of(msg@.take(i as int)),
        decreases msg.instruction@.len() - i,
    {
        let inst = &msg.instruction[i];
        let ghost before = actions_view(out@);
        if let Some(keystroke) = &inst.keystroke {
            if let Some(keys) = &keystroke.keys {
                let mut bytes: Vec<u8> = Vec::new();
                bytes.extend_from_slice(keys.as_slice());
                assert(bytes@ =~= keys@);
                out.push(ClientAction::Write(bytes));
            }
        }
        if let Some(resize) = &inst.resize {
            out.push(ClientAction::Resize(requested_size(resize)));
        }
        proof {
            assert(actions_view(out@) =~= before + actions_in(inst@));
            let next = msg@.take(i + 1);
            assert(next.drop_last() =~= msg@.take(i as int));
            assert(next.last() == inst@);
        }
        i = i + 1;
    }
    assert(msg@.take(msg@.len() as int) =~= msg@);
    out
}

/// The program to run in the terminal, with its arguments and its environment.
#[derive(Debug)]
pub struct PtyPlan {
    pub program: String,
    pub args: Vec<String>,
    pub env: Vec<(String, String)>,
}

/// The environment that every program gets.
pub open spec fn base_env(version: Seq<char>) -> Seq<(Seq<char>, Seq<char>)> {
    seq![
        ("TERM"@, "xterm-256color"@),
        ("LANG"@, "en_US.UTF-8"@),
        ("MORSH"@, version),
    ]
}

/// The program to run and its arguments.
pub open spec fn planned(shell: Seq<char>, command_args: Seq<Seq<char>>, windows: bool) -> (
    Seq<char>,
    Seq<Seq<char>>,
) {
    if command_args.len() == 0 {
        (shell, seq![])
    } else if windows {
        ("cmd.exe"@, seq!["/c"@, words::joined(command_args, " "@)])
    } else {
        ("/bin/sh"@, seq!["-c"@, words::joined(command_args, " "@)])
    }
}

/// The program to run: a command line goes to the system's command interpreter, and without one the
/// shell is run by itself. Later variables take precedence over earlier ones of the same name.
pub fn plan_pty(
    shell: &str,
    command_args: &Vec<String>,
    locale_vars: &Vec<(String, String)>,
    version: &str,
    windows: bool,
) -> (res: PtyPlan)
    ensures
        (res.program@, words::strings_view(res.args@)) == planned(
            shell@,
            words::strings_view(command_args@),
            windows,
        ),
        res.program@ == if command_args@.len() == 0 {
            shell@
        } else if windows {
            "cmd.exe"@
        } else {
            "/bin/sh"@
        },
        words::strings_view(res.args@) == if command_args@.len() == 0 {
            seq![]
        } else {
            seq![
                if windows {
                    "/c"@
                } else {
                    "-c"@
                },
                words::joined(words::strings_view(command_args@), " "@),
            ]
        },
        words::pairs_view(res.env@) == base_env(version@) + words::pairs_view(locale_vars@),
{
    let mut args: Vec<String> = Vec::new();
    let program: String;
    if command_args.len() == 0 {
        program = shell.to_owned();
        assert(words::strings_view(args@) =~= Seq::<Seq<char>>::empty());
    } else {
        let flag = if windows {
            "/c".to_owned()
        } else {
            "-c".to_owned()
        };
        let line = join(command_args, " ");
        let ghost want = seq![flag@, line@];
        args.push(flag);
        args.push(line);
        assert(words::strings_view(args@) =~= want);
        program =
        if windows {
            "cmd.exe".to_owned()
        } else {
            "/bin/sh".to_owned()
        };
    }
    let mut env: Vec<(String, String)> = Vec::new();
    env.push(("TERM".to_owned(), "xterm-256color".to_owned()));
    env.push(("LANG".to_owned(), "en_US.UTF-8".to_owned()));
    env.push(("MORSH".to_owned(), version.to_owned()));
    assert(words::pairs_view(env@) =~= base_env(version@));
    let mut i: usize = 0;
    let ghost vars = words::pairs_view(locale_vars@);
    assert(words::pairs_view(env@) =~= base_env(version@) + vars.take(0));
    while i < locale_vars.len()
        invariant
            i <= locale_vars@.len(),
            vars == words::pairs_view(locale_vars@),
            words::pairs_view(env@) == base_env(version@) + vars.take(i as int),
        decreases locale_vars@.len() - i,
    {
        let ghost before = words::pairs_view(env@);
        env.push((locale_vars[i].0.clone(), locale_vars[i].1.clone()));
        assert(words::pairs_view(env@) =~= before.push(vars[i as int]));
        i = i + 1;
        assert(words::pairs_view(env@) =~= base_env(version@) + vars.take(i as int));
    }
    assert(vars.take(vars.len() as int) =~= vars);
    PtyPlan { program, args, env }
}

/// The events that actions stand for.
pub open spec fn replayed(actions: Seq<ActionView>) -> Seq<UserEvent>
    decreases actions.len(),
{
    if actions.len() == 0 {
        seq![]
    } else {
        replayed(actions.drop_last()) + match actions.last() {
            ActionView::Write(keys) => user_stream::key_events(keys),
            ActionView::Resize(size) => seq![
                UserEvent::Resize { width: size.cols as i32, height: size.rows as i32 },
            ],
        }
    }
}

/// The events of actions and further actions.
proof fn replayed_appends(a: Seq<ActionView>, b: Seq<ActionView>)
    ensures
        replayed(a + b) == replayed(a) + replayed(b),
    decreases b.len(),
{
    if b.len() == 0 {
        assert(a + b =~= a);
        assert(replayed(a) + replayed(b) =~= replayed(a));
    } else {
        replayed_appends(a, b.drop_last());
        assert((a + b).drop_last() =~= a + b.drop_last());
        assert(replayed(a + b) =~= replayed(a) + replayed(b));
    }
}

/// Whether an event is a key, or a resize to dimensions that fit in 16 bits.
pub open spec fn event_fits(event: UserEvent) -> bool {
    match event {
        UserEvent::UserByte(_) => true,
        UserEvent::Resize { width, height } => 0 <= width <= u16::MAX && 0 <= height <= u16::MAX,
    }
}

/// What the actions for instructions stand for is what the instructions tell.
proof fn actions_tell_events(list: Seq<InstructionView>)
    requires
        forall|i: int|
            0 <= i < user_stream::events_of(list).len() ==> event_fits(
                #[trigger] user_stream::events_of(list)[i],
            ),
    ensures
        replayed(actions_of(list)) == user_stream::events_of(list),
    decreases list.len(),
{
    if list.len() > 0 {
        let init = list.drop_last();
        let all = user_stream::events_of(list);
        let before = user_stream::events_of(init);
        let inst = list.last();
        assert forall|i: int| 0 <= i < before.len() implies event_fits(#[trigger] before[i]) by {
            assert(before[i] == all[i]);
        }
        actions_tell_events(init);
        replayed_appends(actions_of(init), actions_in(inst));
        let actions = actions_in(inst);
        let events = user_stream::events_in(inst);
        if let Some(resize) = inst.resize {
            let event = user_stream::resize_event(resize);
            assert(events.last() == event);
            assert(all.last() == event);
            assert(event_fits(all[all.len() - 1]));
            assert(actions.last() == ActionView::Resize(size_of(resize)));
        }
        reveal_with_fuel(replayed, 3);
        assert(actions.len() <= 2);
        if actions.len() > 0 {
            assert(actions.drop_last().len() == actions.len() - 1);
        }
        assert(replayed(actions) =~= events);
        assert(replayed(actions_of(list)) =~= all);
    }
}

/// What a client tells its server to do is what the user did: the same keys and the same dimensions
/// in the same order.
pub proof fn actions_replay_events(events: Seq<UserEvent>)
    requires
        forall|i: int| 0 <= i < events.len() ==> event_fits(#[trigger] events[i]),
    ensures
        replayed(actions_of(user_stream::grouped(events))) == events,
{
    user_stream::grouping_keeps_events(events);
    actions_tell_events(user_stream::grouped(events));
}

/// Dimensions that fit in 16 bits arrive as they were sent.
pub proof fn size_arrives(cols: u16, rows: u16)
    ensures
        size_of(ResizeMessage { width: Some(cols as i32), height: Some(rows as i32) }) == (PtySize {
            rows,
            cols,
        }),
{
}

/// A size that a message leaves out is twenty-four rows or eighty columns; of a number that does not
/// fit in sixteen bits the low ones count.
pub proof fn sizes_are_read(resize: ResizeMessage)
    ensures
        ({
            let size = size_of(resize);
            &&& resize.height is None ==> size.rows == 24
            &&& resize.width is None ==> size.cols == 80
            &&& resize.height is Some ==> (resize.height.unwrap() - size.rows) % 65536 == 0
            &&& resize.width is Some ==> (resize.width.unwrap() - size.cols) % 65536 == 0
        }),
{
}

/// The last size that instructions tell is the one that counts; without any it stays.
pub proof fn last_size_counts(
    before: Seq<InstructionView>,
    inst: InstructionView,
    after: Seq<InstructionView>,
    size: PtySize,
)
    requires
        forall|i: int| 0 <= i < after.len() ==> (#[trigger] after[i]).resize is None,
    ensures
        inst.resize is Some ==> last_size(before.push(inst) + after, size) == size_of(
            inst.resize.unwrap(),
        ),
        last_size(after, size) == size,
    decreases after.len(),
{
    let list = before.push(inst) + after;
    if after.len() == 0 {
        assert(list =~= before.push(inst));
        assert(list.last() == inst);
    } else {
        let init = after.drop_last();
        assert forall|i: int| 0 <= i < init.len() implies (#[trigger] init[i]).resize is None by {
            assert(init[i] == after[i]);
        }
        assert(after[after.len() - 1].resize is None);
        last_size_counts(before, inst, init, size);
        assert(list.drop_last() =~= before.push(inst) + init);
        assert(list.last() == after.last());
    }
}

/// A terminal starts with the last size in the client's first message, or with twenty-four rows of
/// eighty columns where there is none or the message cannot be read.
pub proof fn first_size_is_told(list: Seq<InstructionView>, diff: Seq<u8>)
    ensures
        client::message_of(diff) is None ==> first_size(diff) == (PtySize { rows: 24, cols: 80 }),
        client::message_of(diff) == Some(list) ==> first_size(diff) == last_size(
            list,
            PtySize { rows: 24, cols: 80 },
        ),
{
}

/// What instructions ask for follows in their order: of each its keys, then its size.
pub proof fn actions_follow_each_other(first: Seq<InstructionView>, more: Seq<InstructionView>)
    ensures
        actions_of(first + more) == actions_of(first) + actions_of(more),
    decreases more.len(),
{
    if more.len() == 0 {
        assert(first + more =~= first);
        assert(actions_of(first) + actions_of(more) =~= actions_of(first));
    } else {
        let init = more.drop_last();
        actions_follow_each_other(first, init);
        assert((first + more).drop_last() =~= first + init);
        assert((first + more).last() == more.last());
        assert(actions_of(first) + (actions_of(init) + actions_in(more.last())) =~= actions_of(
            first,
        ) + actions_of(init) + actions_in(more.last()));
    }
}

/// Keys are written to the program as they are, a size changes the terminal, and an instruction with
/// neither asks for nothing.
pub proof fn instruction_asks(inst: InstructionView)
    ensures
        ({
            let actions = actions_of(seq![inst]);
            let has_keys = inst.keystroke is Some && inst.keystroke.unwrap().keys is Some;
            &&& actions.len() == (if has_keys {
                1int
            } else {
                0
            }) + (if inst.resize is Some {
                1int
            } else {
                0
            })
            &&& has_keys ==> actions[0] == ActionView::Write(inst.keystroke.unwrap().keys.unwrap())
            &&& inst.resize is Some ==> actions.last() == ActionView::Resize(
                size_of(inst.resize.unwrap()),
            )
        }),
{
    let list = seq![inst];
    assert(list.drop_last() =~= seq![]);
    assert(actions_of(list.drop_last()) =~= seq![]);
    assert(actions_of(list) =~= actions_in(inst));
}

/// Every program finds its terminal, a locale and the version in its environment.
pub proof fn programs_know_their_terminal(version: Seq<char>)
    ensures
        base_env(version).len() == 3,
        base_env(version)[0] == ("TERM"@, "xterm-256color"@),
        base_env(version)[1] == ("LANG"@, "en_US.UTF-8"@),
        base_env(version)[2] == ("MORSH"@, version),
{
}

/// Without a command the shell is run by itself. A command is handed to the system's interpreter as
/// one line, in which its words stand in order.
pub proof fn commands_are_interpreted(
    shell: Seq<char>,
    command_args: Seq<Seq<char>>,
    windows: bool,
)
    requires
        forall|i: int| 0 <= i < command_args.len() ==> words::is_word(#[trigger] command_args[i]),
    ensures
        ({
            let (program, args) = planned(shell, command_args, windows);
            &&& command_args.len() == 0 ==> program == shell && args.len() == 0
            &&& command_args.len() > 0 ==> {
                &&& args.len() == 2
                &&& windows ==> program == "cmd.exe"@ && args[0] == "/c"@
                &&& !windows ==> program == "/bin/sh"@ && args[0] == "-c"@
                &&& words::words_of(args[1]) == command_args
            }
        }),
{
    reveal_strlit(" ");
    assert(" "@ =~= seq![' ']);
    words::words_of_joined(command_args);
}

} // verus!
