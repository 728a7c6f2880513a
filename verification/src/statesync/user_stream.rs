//! What the user does: keys and resizes, in order.

use crate::proto::client;
use crate::proto::client::Instruction as ClientInstruction;
use crate::proto::client::InstructionView;
use crate::proto::client::Keystroke;
use crate::proto::client::KeystrokeView;
use crate::proto::client::ResizeMessage;
use crate::proto::client::UserMessage;
use crate::proto::layout;
use vstd::prelude::*;

verus! {

/// The width that is meant if none is told.
pub const DEFAULT_WIDTH: i32 = 80;

/// The height that is meant if none is told.
pub const DEFAULT_HEIGHT: i32 = 24;

/// A user input event: keystroke or resize.
#[derive(Debug, Clone, Copy, PartialEq, Eq, Structural)]
pub enum UserEvent {
    /// A single keystroke byte.
    UserByte(u8),
    /// Terminal resize.
    Resize { width: i32, height: i32 },
}

/// The instruction for some keys.
pub open spec fn keys_instruction(keys: Seq<u8>) -> InstructionView {
    InstructionView { keystroke: Some(KeystrokeView { keys: Some(keys) }), resize: None }
}

/// The instruction for a resize.
pub open spec fn resize_instruction(width: i32, height: i32) -> InstructionView {
    InstructionView {
        keystroke: None,
        resize: Some(ResizeMessage { width: Some(width), height: Some(height) }),
    }
}

/// Instructions and one more key: it joins the last instruction if that is for keys.
pub open spec fn with_key(list: Seq<InstructionView>, key: u8) -> Seq<InstructionView> {
    if list.len() > 0 {
        match list.last().keystroke {
            Some(KeystrokeView { keys: Some(keys) }) => list.drop_last().push(
                keys_instruction(keys.push(key)),
            ),
            _ => list.push(keys_instruction(seq![key])),
        }
    } else {
        list.push(keys_instruction(seq![key]))
    }
}

/// The instructions for events: one for each run of keys, and one for each resize.
pub open spec fn grouped(events: Seq<UserEvent>) -> Seq<InstructionView>
    decreases events.len(),
{
    if events.len() == 0 {
        seq![]
    } else {
        let list = grouped(events.drop_last());
        match events.last() {
            UserEvent::UserByte(key) => with_key(list, key),
            UserEvent::Resize { width, height } => list.push(resize_instruction(width, height)),
        }
    }
}

/// The events for keys.
pub open spec fn key_events(keys: Seq<u8>) -> Seq<UserEvent> {
    Seq::new(keys.len(), |i: int| UserEvent::UserByte(keys[i]))
}

/// The event for new dimensions, where what is left out has a default.
pub open spec fn resize_event(resize: ResizeMessage) -> UserEvent {
    UserEvent::Resize {
        width: match resize.width {
            Some(w) => w,
            None => DEFAULT_WIDTH,
        },
        height: match resize.height {
            Some(h) => h,
            None => DEFAULT_HEIGHT,
        },
    }
}

/// The events that an instruction tells: its keys, then its resize.
pub open spec fn events_in(inst: InstructionView) -> Seq<UserEvent> {
    (match inst.keystroke {
        Some(KeystrokeView { keys: Some(keys) }) => key_events(keys),
        _ => seq![],
    }) + (match inst.resize {
        Some(resize) => seq![resize_event(resize)],
        None => seq![],
    })
}

/// The events that instructions tell, in order.
pub open spec fn events_of(list: Seq<InstructionView>) -> Seq<UserEvent>
    decreases list.len(),
{
    if list.len() == 0 {
        seq![]
    } else {
        events_of(list.drop_last()) + events_in(list.last())
    }
}

/// The number of events that two streams have in common at their start.
pub open spec fn common(a: Seq<UserEvent>, b: Seq<UserEvent>) -> int
    decreases a.len(),
{
    if a.len() == 0 || b.len() == 0 || a[0] != b[0] {
        0
    } else {
        1 + common(a.drop_first(), b.drop_first())
    }
}

/// The instructions that take one stream to another.
pub open spec fn difference(from: Seq<UserEvent>, to: Seq<UserEvent>) -> Seq<InstructionView> {
    grouped(to.skip(common(to, from)))
}

/// The diff that tells what was typed beyond what was sent, if there is anything to tell.
pub open spec fn unsent(sent: Seq<UserEvent>, typed: Seq<UserEvent>) -> Option<Seq<u8>> {
    let diff = client::message_bytes(difference(sent, typed));
    if typed.len() > sent.len() && diff.len() > 0 {
        Some(diff)
    } else {
        None
    }
}

/// Queue of user input events (client side).
#[derive(Debug)]
pub struct UserStream {
    events: Vec<UserEvent>,
}

impl View for UserStream {
    type V = Seq<UserEvent>;

    closed spec fn view(&self) -> Seq<UserEvent> {
        self.events@
    }
}

impl Clone for UserStream {
    fn clone(&self) -> (res: Self)
        ensures
            res@ == self@,
    {
        let mut events: Vec<UserEvent> = Vec::new();
        let mut i: usize = 0;
        while i < self.events.len()
            invariant
                i <= self.events@.len(),
                events@ == self.events@.take(i as int),
            decreases self.events@.len() - i,
        {
            events.push(self.events[i]);
            i = i + 1;
            assert(events@ =~= self.events@.take(i as int));
        }
        assert(events@ =~= self.events@);
        UserStream { events }
    }
}

impl Default for UserStream {
    fn default() -> (res: Self)
        ensures
            res@ == Seq::<UserEvent>::empty(),
    {
        Self::new()
    }
}

/// What is common at the start of two streams, from a position up to which they agree.
proof fn common_from(a: Seq<UserEvent>, b: Seq<UserEvent>, n: int)
    requires
        0 <= n <= a.len(),
        n <= b.len(),
        a.take(n) == b.take(n),
    ensures
        common(a, b) == n + common(a.skip(n), b.skip(n)),
    decreases n,
{
    if n == 0 {
        assert(a.skip(0) =~= a);
        assert(b.skip(0) =~= b);
    } else {
        assert(a[0] == a.take(n)[0]);
        assert(b[0] == b.take(n)[0]);
        assert(a.drop_first().take(n - 1) =~= a.take(n).drop_first());
        assert(b.drop_first().take(n - 1) =~= b.take(n).drop_first());
        common_from(a.drop_first(), b.drop_first(), n - 1);
        assert(a.drop_first().skip(n - 1) =~= a.skip(n));
        assert(b.drop_first().skip(n - 1) =~= b.skip(n));
    }
}

/// Streams agree where they are common, and not beyond.
pub proof fn common_is_longest(a: Seq<UserEvent>, b: Seq<UserEvent>)
    ensures
        0 <= common(a, b) <= a.len(),
        common(a, b) <= b.len(),
        a.take(common(a, b)) == b.take(common(a, b)),
        common(a, b) < a.len() && common(a, b) < b.len() ==> a[common(a, b)] != b[common(a, b)],
    decreases a.len(),
{
    if a.len() > 0 && b.len() > 0 && a[0] == b[0] {
        common_is_longest(a.drop_first(), b.drop_first());
        let n = common(a, b);
        let x = a.drop_first().take(n - 1);
        assert(x == b.drop_first().take(n - 1));
        assert forall|i: int| 0 <= i < n implies a[i] == b[i] by {
            if i > 0 {
                assert(a[i] == x[i - 1]);
                assert(b[i] == b.drop_first().take(n - 1)[i - 1]);
            }
        }
        assert(a.take(n) =~= b.take(n));
    } else {
        assert(a.take(0) =~= b.take(0));
    }
}

impl UserStream {
    /// A stream without events.
    pub fn new() -> (res: Self)
        ensures
            res@ == Seq::<UserEvent>::empty(),
    {
        UserStream { events: Vec::new() }
    }

    /// Pushes a keystroke event.
    pub fn push_key(&mut self, byte: u8)
        ensures
            final(self)@ == old(self)@.push(UserEvent::UserByte(byte)),
    {
        self.events.push(UserEvent::UserByte(byte));
    }

    /// Pushes a resize event.
    pub fn push_resize(&mut self, width: i32, height: i32)
        ensures
            final(self)@ == old(self)@.push(UserEvent::Resize { width, height }),
    {
        self.events.push(UserEvent::Resize { width, height });
    }

    /// The number of events in common with another stream at the start.
    fn common_prefix_len(&self, other: &UserStream) -> (res: usize)
        ensures
            res == common(self@, other@),
            res <= self@.len(),
    {
        let mut i: usize = 0;
        assert(self@.take(0) =~= other@.take(0));
        while i < self.events.len() && i < other.events.len() && self.events[i] == other.events[i]
            invariant
                i <= self.events@.len(),
                i <= other.events@.len(),
                self@.take(i as int) == other@.take(i as int),
            decreases self.events@.len() - i,
        {
            proof {
                assert(self@.take(i + 1) =~= self@.take(i as int).push(self@[i as int]));
                assert(other@.take(i + 1) =~= other@.take(i as int).push(other@[i as int]));
            }
            i = i + 1;
        }
        proof {
            common_from(self@, other@, i as int);
            let a = self@.skip(i as int);
            let b = other@.skip(i as int);
            assert(a.len() > 0 && b.len() > 0 ==> a[0] == self@[i as int] && b[0]
                == other@[i as int]);
        }
        i
    }

    /// Computes the diff from `existing` to `self`, as an encoded message: consecutive keystrokes
    /// are grouped into one instruction.
    pub fn diff_from(&self, existing: &UserStream) -> (res: Vec<u8>)
        ensures
            res@ == client::message_bytes(difference(existing@, self@)),
    {
        let start: usize = self.common_prefix_len(existing);
        let ghost fresh = self@.skip(start as int);
        let mut list: Vec<ClientInstruction> = Vec::new();
        let mut keys: Vec<u8> = Vec::new();
        let mut i: usize = start;
        assert(fresh.take(0) =~= Seq::<UserEvent>::empty());
        assert(client::instructions_view(list@) =~= Seq::<InstructionView>::empty());
        while i < self.events.len()
            invariant
                start <= i <= self.events@.len(),
                fresh == self@.skip(start as int),
                grouped(fresh.take(i - start)) == with_keys(
                    client::instructions_view(list@),
                    keys@,
                ),
                ends_without_keys(client::instructions_view(list@)),
            decreases self.events@.len() - i,
        {
            let ghost before = client::instructions_view(list@);
            let ghost held = keys@;
            proof {
                let next = fresh.take(i - start + 1);
                assert(next.drop_last() =~= fresh.take(i - start));
                assert(next.last() == self@[i as int]);
            }
            match self.events[i] {
                UserEvent::UserByte(byte) => {
                    keys.push(byte);
                    proof {
                        if held.len() == 0 {
                            assert(keys@ =~= seq![byte]);
                        } else {
                            assert(before.push(keys_instruction(held)).drop_last() =~= before);
                        }
                        assert(with_key(with_keys(before, held), byte) =~= with_keys(
                            before,
                            keys@,
                        ));
                    }
                },
                UserEvent::Resize { width, height } => {
                    if keys.len() > 0 {
                        list.push(
                            ClientInstruction {
                                keystroke: Some(Keystroke { keys: Some(keys) }),
                                resize: None,
                            },
                        );
                        assert(client::instructions_view(list@) =~= with_keys(before, held));
                    }
                    keys = Vec::new();
                    list.push(
                        ClientInstruction {
                            keystroke: None,
                            resize: Some(ResizeMessage { width: Some(width), height: Some(height) }),
                        },
                    );
                    assert(client::instructions_view(list@) =~= with_keys(before, held).push(
                        resize_instruction(width, height),
                    ));
                },
            }
            i = i + 1;
        }
        assert(fresh.take(i - start) =~= fresh);
        let ghost before = client::instructions_view(list@);
        let ghost held = keys@;
        if keys.len() > 0 {
            list.push(
                ClientInstruction { keystroke: Some(Keystroke { keys: Some(keys) }), resize: None },
            );
        }
        assert(client::instructions_view(list@) =~= with_keys(before, held));
        let msg = UserMessage { instruction: list };
        msg.encode()
    }

    /// The diff that tells what this stream has beyond what was sent, if there is anything to tell.
    pub fn unsent_since(&self, sent: &UserStream) -> (res: Option<Vec<u8>>)
        ensures
            match res {
                Some(diff) => unsent(sent@, self@) == Some(diff@),
                None => unsent(sent@, self@) is None,
            },
    {
        if self.len() > sent.len() {
            let diff = self.diff_from(sent);
            if diff.len() > 0 {
                return Some(diff);
            }
        }
        None
    }

    /// Applies an encoded diff to this stream.
    pub fn apply_string(&mut self, diff: &[u8])
        requires
            client::message_of(diff@) is Some,
        ensures
            final(self)@ == old(self)@ + events_of(client::message_of(diff@)->Some_0),
    {
        if let Ok(msg) = UserMessage::decode(diff) {
            self.apply_message(&msg);
        }
    }

    /// Applies a message to this stream.
    pub fn apply_message(&mut self, msg: &UserMessage)
        ensures
            final(self)@ == old(self)@ + events_of(msg@),
    {
        let ghost before = self@;
        let mut i: usize = 0;
        assert(msg@.take(0) =~= Seq::<InstructionView>::empty());
        assert(self@ =~= before + events_of(msg@.take(0)));
        while i < msg.instruction.len()
            invariant
                i <= msg.instruction@.len(),
                self@ == before + events_of(msg@.take(i as int)),
            decreases msg.instruction@.len() - i,
        {
            let ghost held = self@;
            let inst = &msg.instruction[i];
            if let Some(keystroke) = &inst.keystroke {
                if let Some(keys) = &keystroke.keys {
                    self.push_keys(keys);
                }
            }
            if let Some(resize) = &inst.resize {
                let width: i32 = match resize.width {
                    Some(w) => w,
                    None => DEFAULT_WIDTH,
                };
                let height: i32 = match resize.height {
                    Some(h) => h,
                    None => DEFAULT_HEIGHT,
                };
                self.events.push(UserEvent::Resize { width, height });
            }
            proof {
                assert(self@ =~= held + events_in(inst@));
                let next = msg@.take(i + 1);
                assert(next.drop_last() =~= msg@.take(i as int));
                assert(next.last() == inst@);
                assert(self@ =~= before + events_of(next));
            }
            i = i + 1;
        }
        assert(msg@.take(msg@.len() as int) =~= msg@);
    }

    /// Pushes the events for keys.
    fn push_keys(&mut self, keys: &Vec<u8>)
        ensures
            final(self)@ == old(self)@ + key_events(keys@),
    {
        let ghost before = self@;
        let mut i: usize = 0;
        assert(self@ =~= before + key_events(keys@.take(0)));
        while i < keys.len()
            invariant
                i <= keys@.len(),
                self@ == before + key_events(keys@.take(i as int)),
            decreases keys@.len() - i,
        {
            self.events.push(UserEvent::UserByte(keys[i]));
            i = i + 1;
            assert(self@ =~= before + key_events(keys@.take(i as int)));
        }
        assert(keys@.take(keys@.len() as int) =~= keys@);
    }

    /// Removes the common prefix with `prefix`.
    pub fn subtract(&mut self, prefix: &UserStream)
        ensures
            final(self)@ == old(self)@.skip(common(old(self)@, prefix@)),
    {
        let common: usize = self.common_prefix_len(prefix);
        self.events = self.events.split_off(common);
        assert(self@ =~= old(self)@.skip(common as int));
    }

    /// The number of events in the stream.
    pub fn len(&self) -> (res: usize)
        ensures
            res == self@.len(),
    {
        self.events.len()
    }

    /// Whether the stream is empty.
    pub fn is_empty(&self) -> (res: bool)
        ensures
            res == (self@.len() == 0),
    {
        self.events.len() == 0
    }

    /// The event at an index.
    pub fn get(&self, idx: usize) -> (res: Option<&UserEvent>)
        ensures
            match res {
                Some(event) => idx < self@.len() && *event == self@[idx as int],
                None => idx >= self@.len(),
            },
    {
        if idx < self.events.len() {
            Some(&self.events[idx])
        } else {
            None
        }
    }
}

/// Instructions, then keys that are not in one yet.
spec fn with_keys(list: Seq<InstructionView>, keys: Seq<u8>) -> Seq<InstructionView> {
    if keys.len() == 0 {
        list
    } else {
        list.push(keys_instruction(keys))
    }
}

/// Whether a further key needs a new instruction.
spec fn ends_without_keys(list: Seq<InstructionView>) -> bool {
    list.len() == 0 || list.last().keystroke is None
}

/// Grouping loses nothing: the instructions for events tell these events.
pub proof fn grouping_keeps_events(events: Seq<UserEvent>)
    ensures
        events_of(grouped(events)) == events,
    decreases events.len(),
{
    if events.len() > 0 {
        let init = events.drop_last();
        let list = grouped(init);
        grouping_keeps_events(init);
        assert(events =~= init.push(events.last()));
        match events.last() {
            UserEvent::UserByte(key) => {
                let next = with_key(list, key);
                let joins = list.len() > 0 && (list.last().keystroke matches Some(k) && k.keys is Some);
                if joins {
                    let keys = list.last().keystroke->Some_0.keys->Some_0;
                    grouped_shape(init);
                    assert(next.drop_last() =~= list.drop_last());
                    assert(key_events(keys.push(key)) =~= key_events(keys).push(
                        UserEvent::UserByte(key),
                    ));
                    assert(events_in(list.last()) =~= key_events(keys));
                    assert(events_in(next.last()) =~= key_events(keys.push(key)));
                    assert(events_of(next) =~= events);
                } else {
                    assert(next.drop_last() =~= list);
                    assert(events_in(next.last()) =~= seq![UserEvent::UserByte(key)]);
                    assert(events_of(next) =~= events);
                }
            },
            UserEvent::Resize { width, height } => {
                let next = grouped(events);
                assert(next.drop_last() =~= list);
                assert(events_in(next.last()) =~= seq![events.last()]);
                assert(events_of(next) =~= events);
            },
        }
    }
}

/// Every instruction for events has keys and no resize, or a resize and no keys; and two that follow
/// each other do not both have keys.
pub proof fn grouped_shape(events: Seq<UserEvent>)
    ensures
        forall|i: int|
            0 <= i < grouped(events).len() ==> {
                ||| exists|keys: Seq<u8>|
                    keys.len() > 0 && #[trigger] grouped(events)[i] == keys_instruction(keys)
                        && keys.len() <= events.len()
                ||| exists|w: i32, h: i32|
                    grouped(events)[i] == #[trigger] resize_instruction(w, h)
            },
        forall|i: int|
            #![trigger grouped(events)[i]]
            0 < i < grouped(events).len() && grouped(events)[i].keystroke is Some ==> grouped(
                events,
            )[i - 1].keystroke is None,
    decreases events.len(),
{
    if events.len() > 0 {
        let init = events.drop_last();
        let list = grouped(init);
        let next = grouped(events);
        grouped_shape(init);
        match events.last() {
            UserEvent::UserByte(key) => {
                let joins = list.len() > 0 && (list.last().keystroke matches Some(k) && k.keys is Some);
                let keys = if joins {
                    list.last().keystroke->Some_0.keys->Some_0.push(key)
                } else {
                    seq![key]
                };
                assert(next.last() == keys_instruction(keys));
                assert(joins ==> list.last() == list[list.len() - 1]);
                assert(keys.len() <= events.len());
                assert forall|i: int| 0 <= i < next.len() - 1 implies next[i] == list[i] by {}
                if !joins && list.len() > 0 {
                    assert(list[list.len() - 1].keystroke is None);
                }
                if joins && list.len() > 1 {
                    assert(list[list.len() - 1].keystroke is Some);
                    assert(list[list.len() - 2].keystroke is None);
                }
            },
            UserEvent::Resize { width, height } => {
                assert(next.last() == resize_instruction(width, height));
            },
        }
    }
}

/// A diff of a stream from one that it continues, applied to that one, gives the stream; as long as
/// the bytes of the diff can be counted in 64 bits, which those in memory can.
pub proof fn diff_applies(from: Seq<UserEvent>, to: Seq<UserEvent>)
    requires
        from.len() <= to.len(),
        to.take(from.len() as int) == from,
        client::message_bytes(difference(from, to)).len() <= u64::MAX,
    ensures
        ({
            let diff = client::message_bytes(difference(from, to));
            &&& client::message_of(diff) == Some(difference(from, to))
            &&& from + events_of(client::message_of(diff)->Some_0) == to
        }),
{
    let n = from.len() as int;
    assert(from.take(n) =~= from);
    common_from(to, from, n);
    assert(common(to, from) == n);
    let fresh = to.skip(n);
    grouping_keeps_events(fresh);
    diff_is_readable(fresh);
    assert(from + fresh =~= to);
}

/// Where a stream does not continue the other one, the diff tells what follows the common start.
pub proof fn diff_tells_the_rest(from: Seq<UserEvent>, to: Seq<UserEvent>)
    requires
        client::message_bytes(difference(from, to)).len() <= u64::MAX,
    ensures
        ({
            let diff = client::message_bytes(difference(from, to));
            &&& client::message_of(diff) == Some(difference(from, to))
            &&& events_of(difference(from, to)) == to.skip(common(to, from))
        }),
{
    common_is_longest(to, from);
    let fresh = to.skip(common(to, from));
    grouping_keeps_events(fresh);
    diff_is_readable(fresh);
}

/// The instructions for events can be read back.
proof fn diff_is_readable(events: Seq<UserEvent>)
    requires
        client::message_bytes(grouped(events)).len() <= u64::MAX,
    ensures
        client::message_of(client::message_bytes(grouped(events))) == Some(grouped(events)),
{
    let list = grouped(events);
    client::countable_as_bytes(list);
    client::message_roundtrip(list);
}

/// Nothing to tell gives an empty diff.
pub proof fn nothing_new_is_empty(stream: Seq<UserEvent>)
    ensures
        client::message_bytes(difference(stream, stream)).len() == 0,
{
    common_from(stream, stream, stream.len() as int);
    assert(stream.skip(stream.len() as int).len() == 0);
    assert(grouped(stream.skip(common(stream, stream))).len() == 0);
}

/// Dimensions that a message leaves out are eighty columns and twenty-four rows; keys become one
/// event each, in order.
pub proof fn events_are_told(resize: ResizeMessage, keys: Seq<u8>)
    ensures
        resize_event(resize) == (UserEvent::Resize {
            width: match resize.width {
                Some(w) => w,
                None => 80i32,
            },
            height: match resize.height {
                Some(h) => h,
                None => 24i32,
            },
        }),
        key_events(keys).len() == keys.len(),
        forall|i: int|
            0 <= i < keys.len() ==> #[trigger] key_events(keys)[i] == UserEvent::UserByte(keys[i]),
{
}

/// Keys that follow each other share an instruction; dimensions have one of their own.
pub proof fn events_are_grouped(events: Seq<UserEvent>, key: u8, width: i32, height: i32)
    ensures
        grouped(events.push(UserEvent::Resize { width, height })) == grouped(events).push(
            InstructionView {
                keystroke: None,
                resize: Some(ResizeMessage { width: Some(width), height: Some(height) }),
            },
        ),
        events.len() > 0 && events.last() is UserByte ==> grouped(
            events.push(UserEvent::UserByte(key)),
        ).len() == grouped(events).len(),
        events.len() == 0 || events.last() is Resize ==> grouped(
            events.push(UserEvent::UserByte(key)),
        ) == grouped(events).push(
            InstructionView {
                keystroke: Some(KeystrokeView { keys: Some(seq![key]) }),
                resize: None,
            },
        ),
{
    let r = events.push(UserEvent::Resize { width, height });
    let k = events.push(UserEvent::UserByte(key));
    assert(r.drop_last() =~= events);
    assert(k.drop_last() =~= events);
    if events.len() > 0 {
        assert(events.drop_last().push(events.last()) =~= events);
    }
}

/// What the user did beyond what was sent is pending, and nothing else is.
pub proof fn news_are_pending(sent: Seq<UserEvent>, more: Seq<UserEvent>)
    ensures
        more.len() > 0 ==> unsent(sent, sent + more) is Some,
        more.len() > 0 ==> unsent(sent, sent + more) == Some(
            client::message_bytes(grouped(more)),
        ),
        unsent(sent, sent) is None,
{
    let typed = sent + more;
    let n = sent.len() as int;
    assert(typed.take(n) =~= sent.take(n));
    common_from(typed, sent, n);
    assert(typed.skip(n) =~= more);
    assert(sent.skip(n) =~= Seq::<UserEvent>::empty());
    if more.len() > 0 {
        let list = grouped(more);
        grouping_keeps_events(more);
        if list.len() == 0 {
            assert(events_of(list) =~= Seq::<UserEvent>::empty());
        }
        let last = list.last();
        assert(list.drop_last().push(last) =~= list);
        layout::client_message_layout(list.drop_last(), last);
    }
}

} // verus!
