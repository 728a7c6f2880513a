//! What the client sends: keys and dimensions.

use crate::proto::resize;
pub use crate::proto::resize::ResizeMessage;
use crate::proto::transport;
use crate::proto::transport::copy_opt;
use crate::proto::transport::copy_range;
use crate::proto::transport::push_opt_bytes;
use crate::proto::wire;
use crate::proto::wire::push_bytes;
use crate::proto::wire::DecodeError;
use crate::proto::wire::Field;
use crate::proto::wire::Message;
use crate::proto::wire::RawField;
use vstd::prelude::*;

verus! {

/// Keys that the user pressed.
#[derive(Debug, PartialEq, Eq)]
pub struct Keystroke {
    pub keys: Option<Vec<u8>>,
}

/// What Keystroke holds.
#[verifier::ext_equal]
pub struct KeystrokeView {
    pub keys: Option<Seq<u8>>,
}

impl View for Keystroke {
    type V = KeystrokeView;

    open spec fn view(&self) -> KeystrokeView {
        KeystrokeView { keys: transport::bytes_view(self.keys) }
    }
}

impl Clone for Keystroke {
    fn clone(&self) -> (res: Self)
        ensures
            res@ == self@,
    {
        Keystroke { keys: copy_opt(&self.keys) }
    }
}

impl Message for Keystroke {
    open spec fn blank() -> KeystrokeView {
        KeystrokeView { keys: None }
    }

    open spec fn merged(m: KeystrokeView, field: Field, depth: nat) -> Option<KeystrokeView> {
        match field {
            Field::Bytes { num, bytes } => if num == 4 {
                Some(KeystrokeView { keys: Some(bytes) })
            } else {
                Some(m)
            },
            Field::Number { num, .. } => if num == 4 {
                None
            } else {
                Some(m)
            },
            Field::Other { num } => if num == 4 {
                None
            } else {
                Some(m)
            },
        }
    }

    fn new_blank() -> (res: Self) {
        Keystroke { keys: None }
    }

    fn merge_field(&mut self, data: &[u8], field: RawField, depth: u32) -> (fits: bool) {
        match field {
            RawField::Bytes { num, start, end } => {
                if num == 4 {
                    self.keys = Some(copy_range(data, start, end));
                }
                true
            },
            RawField::Number { num, .. } => num != 4,
            RawField::Other { num } => num != 4,
        }
    }
}

/// Keystroke on the wire.
pub open spec fn keys_bytes(m: KeystrokeView) -> Seq<u8> {
    transport::opt_bytes(4, m.keys)
}

/// Reading Keystroke that was written gives it back.
pub proof fn keys_roundtrip(m: KeystrokeView, depth: nat)
    requires
        depth > 0,
        transport::countable(m.keys),
    ensures
        wire::all_merged::<Keystroke>(Keystroke::blank(), keys_bytes(m), depth) == Some(m),
{
    assert(keys_bytes(m) + Seq::<u8>::empty() =~= keys_bytes(m));
    transport::merge_opt_bytes::<Keystroke>(Keystroke::blank(), 4, m.keys, Seq::empty(), depth);
}

/// One thing that the user did.
#[derive(Debug, PartialEq, Eq)]
pub struct Instruction {
    pub keystroke: Option<Keystroke>,
    pub resize: Option<ResizeMessage>,
}

/// What an instruction holds.
#[verifier::ext_equal]
pub struct InstructionView {
    pub keystroke: Option<KeystrokeView>,
    pub resize: Option<ResizeMessage>,
}

/// What the keystroke field of an instruction holds.
pub open spec fn keystroke_view(m: Option<Keystroke>) -> Option<KeystrokeView> {
    match m {
        Some(m) => Some(m@),
        None => None,
    }
}

impl View for Instruction {
    type V = InstructionView;

    open spec fn view(&self) -> InstructionView {
        InstructionView {
            keystroke: keystroke_view(self.keystroke),
            resize: self.resize,
        }
    }
}

impl Clone for Instruction {
    fn clone(&self) -> (res: Self)
        ensures
            res@ == self@,
    {
        Instruction {
            keystroke: match &self.keystroke {
                Some(m) => Some(m.clone()),
                None => None,
            },
            resize: self.resize,
        }
    }
}

impl Message for Instruction {
    open spec fn blank() -> InstructionView {
        InstructionView { keystroke: None, resize: None }
    }

    open spec fn merged(m: InstructionView, field: Field, depth: nat) -> Option<InstructionView> {
        match field {
            Field::Bytes { num, bytes } => if num == 2 {
                match wire::part_merged::<Keystroke>(m.keystroke, bytes, depth) {
                    Some(p) => Some(InstructionView { keystroke: Some(p), ..m }),
                    None => None,
                }
            } else if num == 3 {
                match wire::part_merged::<ResizeMessage>(m.resize, bytes, depth) {
                    Some(p) => Some(InstructionView { resize: Some(p), ..m }),
                    None => None,
                }
            } else {
                Some(m)
            },
            Field::Number { num, .. } => if num == 2 || num == 3 {
                None
            } else {
                Some(m)
            },
            Field::Other { num } => if num == 2 || num == 3 {
                None
            } else {
                Some(m)
            },
        }
    }

    fn new_blank() -> (res: Self) {
        Instruction { keystroke: None, resize: None }
    }

    fn merge_field(&mut self, data: &[u8], field: RawField, depth: u32) -> (fits: bool) {
        match field {
            RawField::Bytes { num, start, end } => {
                if num == 2 {
                    let mut part = match self.keystroke.take() {
                        Some(m) => m,
                        None => Keystroke::new_blank(),
                    };
                    if depth <= 1 || !wire::merge_all(&mut part, data, start, end, depth - 1) {
                        return false;
                    }
                    self.keystroke = Some(part);
                } else if num == 3 {
                    let mut part = match self.resize {
                        Some(m) => m,
                        None => ResizeMessage::new_blank(),
                    };
                    if depth <= 1 || !wire::merge_all(&mut part, data, start, end, depth - 1) {
                        return false;
                    }
                    self.resize = Some(part);
                }
                true
            },
            RawField::Number { num, .. } => num != 2 && num != 3,
            RawField::Other { num } => num != 2 && num != 3,
        }
    }
}

/// The parts of an instruction as they are written.
pub open spec fn part_keys(m: Option<KeystrokeView>) -> Option<Seq<u8>> {
    match m {
        Some(m) => Some(keys_bytes(m)),
        None => None,
    }
}

/// The dimensions of an instruction as they are written.
pub open spec fn part_resize(m: Option<ResizeMessage>) -> Option<Seq<u8>> {
    match m {
        Some(m) => Some(resize::resize_bytes(m)),
        None => None,
    }
}

/// An instruction on the wire.
pub open spec fn instruction_bytes(m: InstructionView) -> Seq<u8> {
    transport::opt_bytes(2, part_keys(m.keystroke)) + transport::opt_bytes(3, part_resize(m.resize))
}

/// Whether the parts of an instruction can be counted in 64 bits.
pub open spec fn instruction_countable(m: InstructionView) -> bool {
    &&& m.keystroke matches Some(p) ==> transport::countable(p.keys)
    &&& transport::countable(part_keys(m.keystroke))
    &&& transport::countable(part_resize(m.resize))
}

/// The keys of an instruction are among its bytes, and so are its parts.
proof fn instruction_holds_parts(m: InstructionView)
    ensures
        m.keystroke matches Some(k) ==> (k.keys matches Some(keys) ==> keys.len()
            <= instruction_bytes(m).len()),
        part_keys(m.keystroke) matches Some(part) ==> part.len() <= instruction_bytes(m).len(),
        part_resize(m.resize) matches Some(part) ==> part.len() <= instruction_bytes(m).len(),
{
}

/// Reading an instruction that was written gives it back.
pub proof fn instruction_roundtrip(m: InstructionView, depth: nat)
    requires
        depth > 1,
        instruction_countable(m),
    ensures
        wire::all_merged::<Instruction>(Instruction::blank(), instruction_bytes(m), depth) == Some(
            m,
        ),
{
    let inner = (depth - 1) as nat;
    if let Some(p) = m.keystroke {
        keys_roundtrip(p, inner);
    }
    if let Some(p) = m.resize {
        resize::resize_roundtrip(p, inner);
    }
    let a = transport::opt_bytes(2, part_keys(m.keystroke));
    let b = transport::opt_bytes(3, part_resize(m.resize));
    let m1 = InstructionView { keystroke: m.keystroke, resize: None };
    transport::merge_opt_bytes::<Instruction>(
        Instruction::blank(),
        2,
        part_keys(m.keystroke),
        b,
        depth,
    );
    assert(b + Seq::<u8>::empty() =~= b);
    transport::merge_opt_bytes::<Instruction>(m1, 3, part_resize(m.resize), Seq::empty(), depth);
}

impl Instruction {
    /// The instruction on the wire.
    pub fn encode(&self) -> (res: Vec<u8>)
        ensures
            res@ == instruction_bytes(self@),
    {
        let mut out: Vec<u8> = Vec::new();
        if let Some(m) = &self.keystroke {
            let mut part: Vec<u8> = Vec::new();
            push_opt_bytes(&mut part, 4, &m.keys);
            assert(part@ =~= keys_bytes(m@));
            push_bytes(&mut out, 2, &part);
        }
        assert(out@ =~= transport::opt_bytes(2, part_keys(self@.keystroke)));
        let ghost first = out@;
        if let Some(m) = &self.resize {
            let part = m.encode();
            push_bytes(&mut out, 3, &part);
        }
        assert(out@ =~= first + transport::opt_bytes(3, part_resize(self@.resize)));
        assert(out@ =~= instruction_bytes(self@));
        out
    }
}

/// What the user did, in order.
#[derive(Debug, PartialEq, Eq)]
pub struct UserMessage {
    pub instruction: Vec<Instruction>,
}

/// What the instructions of a message hold.
pub open spec fn instructions_view(list: Seq<Instruction>) -> Seq<InstructionView> {
    Seq::new(list.len(), |i: int| list[i]@)
}

impl View for UserMessage {
    type V = Seq<InstructionView>;

    open spec fn view(&self) -> Seq<InstructionView> {
        instructions_view(self.instruction@)
    }
}

impl Message for UserMessage {
    open spec fn blank() -> Seq<InstructionView> {
        Seq::empty()
    }

    open spec fn merged(m: Seq<InstructionView>, field: Field, depth: nat) -> Option<
        Seq<InstructionView>,
    > {
        match field {
            Field::Bytes { num, bytes } => if num == 1 {
                match wire::part_merged::<Instruction>(None, bytes, depth) {
                    Some(p) => Some(m.push(p)),
                    None => None,
                }
            } else {
                Some(m)
            },
            Field::Number { num, .. } => if num == 1 {
                None
            } else {
                Some(m)
            },
            Field::Other { num } => if num == 1 {
                None
            } else {
                Some(m)
            },
        }
    }

    fn new_blank() -> (res: Self) {
        let res = UserMessage { instruction: Vec::new() };
        assert(res@ =~= UserMessage::blank());
        res
    }

    fn merge_field(&mut self, data: &[u8], field: RawField, depth: u32) -> (fits: bool) {
        match field {
            RawField::Bytes { num, start, end } => {
                if num == 1 {
                    let mut part = Instruction::new_blank();
                    if depth <= 1 || !wire::merge_all(&mut part, data, start, end, depth - 1) {
                        return false;
                    }
                    let ghost p = part@;
                    self.instruction.push(part);
                    assert(self@ =~= old(self)@.push(p));
                }
                true
            },
            RawField::Number { num, .. } => num != 1,
            RawField::Other { num } => num != 1,
        }
    }
}

/// The first `n` instructions of a message on the wire.
pub open spec fn message_prefix(m: Seq<InstructionView>, n: int) -> Seq<u8>
    decreases n,
{
    if n <= 0 {
        seq![]
    } else {
        message_prefix(m, n - 1) + wire::field_bytes(
            Field::Bytes { num: 1, bytes: instruction_bytes(m[n - 1]) },
        )
    }
}

/// A message on the wire: its instructions in order.
pub open spec fn message_bytes(m: Seq<InstructionView>) -> Seq<u8> {
    message_prefix(m, m.len() as int)
}

/// The message that a byte string denotes, or `None` if it denotes none.
pub open spec fn message_of(data: Seq<u8>) -> Option<Seq<InstructionView>> {
    wire::all_merged::<UserMessage>(UserMessage::blank(), data, wire::RECURSION_LIMIT as nat)
}

/// Whether the instructions of a message can be counted in 64 bits.
pub open spec fn message_countable(m: Seq<InstructionView>) -> bool {
    forall|i: int|
        0 <= i < m.len() ==> instruction_countable(#[trigger] m[i]) && instruction_bytes(
            m[i],
        ).len() <= u64::MAX
}

/// Reading the first instructions of a message leaves the rest to be read.
proof fn prefix_reads_back(m: Seq<InstructionView>, n: int, rest: Seq<u8>)
    requires
        message_countable(m),
        0 <= n <= m.len(),
    ensures
        wire::all_merged::<UserMessage>(
            Seq::empty(),
            message_prefix(m, n) + rest,
            wire::RECURSION_LIMIT as nat,
        ) == wire::all_merged::<UserMessage>(m.take(n), rest, wire::RECURSION_LIMIT as nat),
    decreases n,
{
    let depth = wire::RECURSION_LIMIT as nat;
    if n <= 0 {
        assert(message_prefix(m, n) + rest =~= rest);
        assert(m.take(n) =~= Seq::<InstructionView>::empty());
    } else {
        let field = Field::Bytes { num: 1, bytes: instruction_bytes(m[n - 1]) };
        let tail = wire::field_bytes(field) + rest;
        prefix_reads_back(m, n - 1, tail);
        assert(message_prefix(m, n) + rest =~= message_prefix(m, n - 1) + tail);
        wire::merge_written::<UserMessage>(m.take(n - 1), field, rest, depth);
        instruction_roundtrip(m[n - 1], (depth - 1) as nat);
        assert(m.take(n) =~= m.take(n - 1).push(m[n - 1]));
    }
}

/// The instructions of a message can be counted if its bytes can.
pub proof fn countable_as_bytes(m: Seq<InstructionView>)
    requires
        message_bytes(m).len() <= u64::MAX,
    ensures
        message_countable(m),
{
    assert forall|i: int| 0 <= i < m.len() implies instruction_countable(#[trigger] m[i])
        && instruction_bytes(m[i]).len() <= u64::MAX by {
        prefix_grows(m, i + 1, m.len() as int);
        instruction_holds_parts(m[i]);
    }
}

/// More instructions take no fewer bytes.
proof fn prefix_grows(m: Seq<InstructionView>, n: int, k: int)
    requires
        n <= k,
    ensures
        message_prefix(m, n).len() <= message_prefix(m, k).len(),
    decreases k - n,
{
    if n < k {
        prefix_grows(m, n, k - 1);
    }
}

/// Reading a message that was written gives it back.
pub proof fn message_roundtrip(m: Seq<InstructionView>)
    requires
        message_countable(m),
    ensures
        message_of(message_bytes(m)) == Some(m),
{
    prefix_reads_back(m, m.len() as int, Seq::empty());
    assert(message_bytes(m) + Seq::<u8>::empty() =~= message_bytes(m));
    assert(m.take(m.len() as int) =~= m);
}

impl UserMessage {
    /// The message on the wire.
    pub fn encode(&self) -> (res: Vec<u8>)
        ensures
            res@ == message_bytes(self@),
    {
        let mut out: Vec<u8> = Vec::new();
        let mut i: usize = 0;
        assert(out@ =~= message_prefix(self@, 0));
        while i < self.instruction.len()
            invariant
                i <= self.instruction@.len(),
                out@ == message_prefix(self@, i as int),
            decreases self.instruction@.len() - i,
        {
            let part = self.instruction[i].encode();
            push_bytes(&mut out, 1, &part);
            i = i + 1;
        }
        out
    }

    /// The message that a byte string denotes.
    pub fn decode(data: &[u8]) -> (res: Result<Self, DecodeError>)
        ensures
            match res {
                Ok(m) => message_of(data@) == Some(m@),
                Err(_) => message_of(data@) is None,
            },
    {
        let mut m = Self::new_blank();
        assert(data@.subrange(0, data@.len() as int) =~= data@);
        if wire::merge_all(&mut m, data, 0, data.len(), wire::RECURSION_LIMIT) {
            Ok(m)
        } else {
            Err(DecodeError)
        }
    }
}

} // verus!
