//! What the server sends: output for the screen, dimensions, and echo acknowledgments.

use crate::proto::resize;
pub use crate::proto::resize::ResizeMessage;
use crate::proto::transport;
use crate::proto::transport::copy_opt;
use crate::proto::transport::copy_range;
use crate::proto::transport::push_opt_bytes;
use crate::proto::transport::push_opt_number;
use crate::proto::wire;
use crate::proto::wire::push_bytes;
use crate::proto::wire::DecodeError;
use crate::proto::wire::Field;
use crate::proto::wire::Message;
use crate::proto::wire::RawField;
use vstd::prelude::*;

verus! {

/// Output for the screen.
#[derive(Debug, PartialEq, Eq)]
pub struct HostBytes {
    pub hoststring: Option<Vec<u8>>,
}

/// What HostBytes holds.
#[verifier::ext_equal]
pub struct HostBytesView {
    pub hoststring: Option<Seq<u8>>,
}

impl View for HostBytes {
    type V = HostBytesView;

    open spec fn view(&self) -> HostBytesView {
        HostBytesView { hoststring: transport::bytes_view(self.hoststring) }
    }
}

impl Clone for HostBytes {
    fn clone(&self) -> (res: Self)
        ensures
            res@ == self@,
    {
        HostBytes { hoststring: copy_opt(&self.hoststring) }
    }
}

impl Message for HostBytes {
    open spec fn blank() -> HostBytesView {
        HostBytesView { hoststring: None }
    }

    open spec fn merged(m: HostBytesView, field: Field, depth: nat) -> Option<HostBytesView> {
        match field {
            Field::Bytes { num, bytes } => if num == 4 {
                Some(HostBytesView { hoststring: Some(bytes) })
            } else {
                Some(m)
            },
            Field::Number { num, .. } => if num == 4 {
                None
            } else {
                Some(m)
            },
            Field::Other { num } => if num == 4 {
                None
            } else {
                Some(m)
            },
        }
    }

    fn new_blank() -> (res: Self) {
        HostBytes { hoststring: None }
    }

    fn merge_field(&mut self, data: &[u8], field: RawField, depth: u32) -> (fits: bool) {
        match field {
            RawField::Bytes { num, start, end } => {
                if num == 4 {
                    self.hoststring = Some(copy_range(data, start, end));
                }
                true
            },
            RawField::Number { num, .. } => num != 4,
            RawField::Other { num } => num != 4,
        }
    }
}

/// HostBytes on the wire.
pub open spec fn hoststring_bytes(m: HostBytesView) -> Seq<u8> {
    transport::opt_bytes(4, m.hoststring)
}

/// Reading HostBytes that was written gives it back.
pub proof fn hoststring_roundtrip(m: HostBytesView, depth: nat)
    requires
        depth > 0,
        transport::countable(m.hoststring),
    ensures
        wire::all_merged::<HostBytes>(HostBytes::blank(), hoststring_bytes(m), depth) == Some(m),
{
    assert(hoststring_bytes(m) + Seq::<u8>::empty() =~= hoststring_bytes(m));
    transport::merge_opt_bytes::<HostBytes>(
        HostBytes::blank(),
        4,
        m.hoststring,
        Seq::empty(),
        depth,
    );
}


/// How far user input has been echoed.
#[derive(Debug, Clone, Copy, PartialEq, Eq, Structural)]
pub struct EchoAck {
    pub echo_ack_num: Option<u64>,
}

impl View for EchoAck {
    type V = EchoAck;

    open spec fn view(&self) -> EchoAck {
        *self
    }
}

impl Message for EchoAck {
    open spec fn blank() -> EchoAck {
        EchoAck { echo_ack_num: None }
    }

    open spec fn merged(m: EchoAck, field: Field, depth: nat) -> Option<EchoAck> {
        match field {
            Field::Number { num, value } => if num == 8 {
                Some(EchoAck { echo_ack_num: Some(value) })
            } else {
                Some(m)
            },
            Field::Bytes { num, .. } => if num == 8 {
                None
            } else {
                Some(m)
            },
            Field::Other { num } => if num == 8 {
                None
            } else {
                Some(m)
            },
        }
    }

    fn new_blank() -> (res: Self) {
        EchoAck { echo_ack_num: None }
    }

    fn merge_field(&mut self, data: &[u8], field: RawField, depth: u32) -> (fits: bool) {
        match field {
            RawField::Number { num, value } => {
                if num == 8 {
                    self.echo_ack_num = Some(value);
                }
                true
            },
            RawField::Bytes { num, .. } => num != 8,
            RawField::Other { num } => num != 8,
        }
    }
}

/// An echo acknowledgment on the wire.
pub open spec fn echo_bytes(m: EchoAck) -> Seq<u8> {
    transport::opt_number(8, m.echo_ack_num)
}

/// Reading an echo acknowledgment that was written gives it back.
pub proof fn echo_roundtrip(m: EchoAck, depth: nat)
    requires
        depth > 0,
    ensures
        wire::all_merged::<EchoAck>(EchoAck::blank(), echo_bytes(m), depth) == Some(m),
{
    assert(echo_bytes(m) + Seq::<u8>::empty() =~= echo_bytes(m));
    transport::merge_opt_number::<EchoAck>(
        EchoAck::blank(),
        8,
        m.echo_ack_num,
        Seq::empty(),
        depth,
    );
}

/// One thing that the server tells.
#[derive(Debug, PartialEq, Eq)]
pub struct Instruction {
    pub hostbytes: Option<HostBytes>,
    pub resize: Option<ResizeMessage>,
    pub echoack: Option<EchoAck>,
}

/// What an instruction holds.
#[verifier::ext_equal]
pub struct InstructionView {
    pub hostbytes: Option<HostBytesView>,
    pub resize: Option<ResizeMessage>,
    pub echoack: Option<EchoAck>,
}

/// What the hostbytes field of an instruction holds.
pub open spec fn hostbytes_view(m: Option<HostBytes>) -> Option<HostBytesView> {
    match m {
        Some(m) => Some(m@),
        None => None,
    }
}

impl View for Instruction {
    type V = InstructionView;

    open spec fn view(&self) -> InstructionView {
        InstructionView {
            hostbytes: hostbytes_view(self.hostbytes),
            resize: self.resize,
            echoack: self.echoack,
        }
    }
}

impl Clone for Instruction {
    fn clone(&self) -> (res: Self)
        ensures
            res@ == self@,
    {
        Instruction {
            hostbytes: match &self.hostbytes {
                Some(m) => Some(m.clone()),
                None => None,
            },
            resize: self.resize,
            echoack: self.echoack,
        }
    }
}

impl Message for Instruction {
    open spec fn blank() -> InstructionView {
        InstructionView { hostbytes: None, resize: None, echoack: None }
    }

    open spec fn merged(m: InstructionView, field: Field, depth: nat) -> Option<InstructionView> {
        match field {
            Field::Bytes { num, bytes } => if num == 2 {
                match wire::part_merged::<HostBytes>(m.hostbytes, bytes, depth) {
                    Some(p) => Some(InstructionView { hostbytes: Some(p), ..m }),
                    None => None,
                }
            } else if num == 3 {
                match wire::part_merged::<ResizeMessage>(m.resize, bytes, depth) {
                    Some(p) => Some(InstructionView { resize: Some(p), ..m }),
                    None => None,
                }
            } else if num == 7 {
                match wire::part_merged::<EchoAck>(m.echoack, bytes, depth) {
                    Some(p) => Some(InstructionView { echoack: Some(p), ..m }),
                    None => None,
                }
            } else {
                Some(m)
            },
            Field::Number { num, .. } => if num == 2 || num == 3 || num == 7 {
                None
            } else {
                Some(m)
            },
            Field::Other { num } => if num == 2 || num == 3 || num == 7 {
                None
            } else {
                Some(m)
            },
        }
    }

    fn new_blank() -> (res: Self) {
        Instruction { hostbytes: None, resize: None, echoack: None }
    }

    fn merge_field(&mut self, data: &[u8], field: RawField, depth: u32) -> (fits: bool) {
        match field {
            RawField::Bytes { num, start, end } => {
                if num == 2 {
                    let mut part = match self.hostbytes.take() {
                        Some(m) => m,
                        None => HostBytes::new_blank(),
                    };
                    if depth <= 1 || !wire::merge_all(&mut part, data, start, end, depth - 1) {
                        return false;
                    }
                    self.hostbytes = Some(part);
                } else if num == 3 {
                    let mut part = match self.resize {
                        Some(m) => m,
                        None => ResizeMessage::new_blank(),
                    };
                    if depth <= 1 || !wire::merge_all(&mut part, data, start, end, depth - 1) {
                        return false;
                    }
                    self.resize = Some(part);
                } else if num == 7 {
                    let mut part = match self.echoack {
                        Some(m) => m,
                        None => EchoAck::new_blank(),
                    };
                    if depth <= 1 || !wire::merge_all(&mut part, data, start, end, depth - 1) {
                        return false;
                    }
                    self.echoack = Some(part);
                }
                true
            },
            RawField::Number { num, .. } => num != 2 && num != 3 && num != 7,
            RawField::Other { num } => num != 2 && num != 3 && num != 7,
        }
    }
}

/// The parts of an instruction as they are written.
pub open spec fn part_hoststring(m: Option<HostBytesView>) -> Option<Seq<u8>> {
    match m {
        Some(m) => Some(hoststring_bytes(m)),
        None => None,
    }
}

/// The dimensions of an instruction as they are written.
pub open spec fn part_resize(m: Option<ResizeMessage>) -> Option<Seq<u8>> {
    match m {
        Some(m) => Some(resize::resize_bytes(m)),
        None => None,
    }
}

/// The echo acknowledgment of an instruction as it is written.
pub open spec fn part_echo(m: Option<EchoAck>) -> Option<Seq<u8>> {
    match m {
        Some(m) => Some(echo_bytes(m)),
        None => None,
    }
}

/// An instruction on the wire.
pub open spec fn instruction_bytes(m: InstructionView) -> Seq<u8> {
    transport::opt_bytes(2, part_hoststring(m.hostbytes)) + transport::opt_bytes(
        3,
        part_resize(m.resize),
    ) + transport::opt_bytes(7, part_echo(m.echoack))
}

/// Whether the parts of an instruction can be counted in 64 bits.
pub open spec fn instruction_countable(m: InstructionView) -> bool {
    &&& m.hostbytes matches Some(p) ==> transport::countable(p.hoststring)
    &&& transport::countable(part_hoststring(m.hostbytes))
    &&& transport::countable(part_resize(m.resize))
    &&& transport::countable(part_echo(m.echoack))
}

/// Reading an instruction that was written gives it back.
pub proof fn instruction_roundtrip(m: InstructionView, depth: nat)
    requires
        depth > 1,
        instruction_countable(m),
    ensures
        wire::all_merged::<Instruction>(Instruction::blank(), instruction_bytes(m), depth) == Some(
            m,
        ),
{
    let inner = (depth - 1) as nat;
    if let Some(p) = m.hostbytes {
        hoststring_roundtrip(p, inner);
    }
    if let Some(p) = m.resize {
        resize::resize_roundtrip(p, inner);
    }
    if let Some(p) = m.echoack {
        echo_roundtrip(p, inner);
    }
    let a = transport::opt_bytes(2, part_hoststring(m.hostbytes));
    let b = transport::opt_bytes(3, part_resize(m.resize));
    let c = transport::opt_bytes(7, part_echo(m.echoack));
    assert(instruction_bytes(m) =~= a + (b + c));
    let m1 = InstructionView { hostbytes: m.hostbytes, resize: None, echoack: None };
    let m2 = InstructionView { resize: m.resize, ..m1 };
    transport::merge_opt_bytes::<Instruction>(
        Instruction::blank(),
        2,
        part_hoststring(m.hostbytes),
        b + c,
        depth,
    );
    transport::merge_opt_bytes::<Instruction>(m1, 3, part_resize(m.resize), c, depth);
    assert(c + Seq::<u8>::empty() =~= c);
    transport::merge_opt_bytes::<Instruction>(m2, 7, part_echo(m.echoack), Seq::empty(), depth);
}

impl Instruction {
    /// The instruction on the wire.
    pub fn encode(&self) -> (res: Vec<u8>)
        ensures
            res@ == instruction_bytes(self@),
    {
        let mut out: Vec<u8> = Vec::new();
        if let Some(m) = &self.hostbytes {
            let mut part: Vec<u8> = Vec::new();
            push_opt_bytes(&mut part, 4, &m.hoststring);
            assert(part@ =~= hoststring_bytes(m@));
            push_bytes(&mut out, 2, &part);
        }
        assert(out@ =~= transport::opt_bytes(2, part_hoststring(self@.hostbytes)));
        let ghost first = out@;
        if let Some(m) = &self.resize {
            let part = m.encode();
            push_bytes(&mut out, 3, &part);
        }
        assert(out@ =~= first + transport::opt_bytes(3, part_resize(self@.resize)));
        let ghost second = out@;
        if let Some(m) = &self.echoack {
            let mut part: Vec<u8> = Vec::new();
            push_opt_number(&mut part, 8, m.echo_ack_num);
            assert(part@ =~= echo_bytes(*m));
            push_bytes(&mut out, 7, &part);
        }
        assert(out@ =~= second + transport::opt_bytes(7, part_echo(self@.echoack)));
        assert(out@ =~= instruction_bytes(self@));
        out
    }
}

/// What the server tells, in order.
#[derive(Debug, PartialEq, Eq)]
pub struct HostMessage {
    pub instruction: Vec<Instruction>,
}

/// What the instructions of a message hold.
pub open spec fn instructions_view(list: Seq<Instruction>) -> Seq<InstructionView> {
    Seq::new(list.len(), |i: int| list[i]@)
}

impl View for HostMessage {
    type V = Seq<InstructionView>;

    open spec fn view(&self) -> Seq<InstructionView> {
        instructions_view(self.instruction@)
    }
}

impl Message for HostMessage {
    open spec fn blank() -> Seq<InstructionView> {
        Seq::empty()
    }

    open spec fn merged(m: Seq<InstructionView>, field: Field, depth: nat) -> Option<
        Seq<InstructionView>,
    > {
        match field {
            Field::Bytes { num, bytes } => if num == 1 {
                match wire::part_merged::<Instruction>(None, bytes, depth) {
                    Some(p) => Some(m.push(p)),
                    None => None,
                }
            } else {
                Some(m)
            },
            Field::Number { num, .. } => if num == 1 {
                None
            } else {
                Some(m)
            },
            Field::Other { num } => if num == 1 {
                None
            } else {
                Some(m)
            },
        }
    }

    fn new_blank() -> (res: Self) {
        let res = HostMessage { instruction: Vec::new() };
        assert(res@ =~= HostMessage::blank());
        res
    }

    fn merge_field(&mut self, data: &[u8], field: RawField, depth: u32) -> (fits: bool) {
        match field {
            RawField::Bytes { num, start, end } => {
                if num == 1 {
                    let mut part = Instruction::new_blank();
                    if depth <= 1 || !wire::merge_all(&mut part, data, start, end, depth - 1) {
                        return false;
                    }
                    let ghost p = part@;
                    self.instruction.push(part);
                    assert(self@ =~= old(self)@.push(p));
                }
                true
            },
            RawField::Number { num, .. } => num != 1,
            RawField::Other { num } => num != 1,
        }
    }
}

/// The first `n` instructions of a message on the wire.
pub open spec fn message_prefix(m: Seq<InstructionView>, n: int) -> Seq<u8>
    decreases n,
{
    if n <= 0 {
        seq![]
    } else {
        message_prefix(m, n - 1) + wire::field_bytes(
            Field::Bytes { num: 1, bytes: instruction_bytes(m[n - 1]) },
        )
    }
}

/// A message on the wire: its instructions in order.
pub open spec fn message_bytes(m: Seq<InstructionView>) -> Seq<u8> {
    message_prefix(m, m.len() as int)
}

/// The message that a byte string denotes, or `None` if it denotes none.
pub open spec fn message_of(data: Seq<u8>) -> Option<Seq<InstructionView>> {
    wire::all_merged::<HostMessage>(HostMessage::blank(), data, wire::RECURSION_LIMIT as nat)
}

/// Whether the instructions of a message can be counted in 64 bits.
pub open spec fn message_countable(m: Seq<InstructionView>) -> bool {
    forall|i: int|
        0 <= i < m.len() ==> instruction_countable(#[trigger] m[i]) && instruction_bytes(
            m[i],
        ).len() <= u64::MAX
}

/// Reading the first instructions of a message leaves the rest to be read.
proof fn prefix_reads_back(m: Seq<InstructionView>, n: int, rest: Seq<u8>)
    requires
        message_countable(m),
        0 <= n <= m.len(),
    ensures
        wire::all_merged::<HostMessage>(
            Seq::empty(),
            message_prefix(m, n) + rest,
            wire::RECURSION_LIMIT as nat,
        ) == wire::all_merged::<HostMessage>(m.take(n), rest, wire::RECURSION_LIMIT as nat),
    decreases n,
{
    let depth = wire::RECURSION_LIMIT as nat;
    if n <= 0 {
        assert(message_prefix(m, n) + rest =~= rest);
        assert(m.take(n) =~= Seq::<InstructionView>::empty());
    } else {
        let field = Field::Bytes { num: 1, bytes: instruction_bytes(m[n - 1]) };
        let tail = wire::field_bytes(field) + rest;
        prefix_reads_back(m, n - 1, tail);
        assert(message_prefix(m, n) + rest =~= message_prefix(m, n - 1) + tail);
        wire::merge_written::<HostMessage>(m.take(n - 1), field, rest, depth);
        instruction_roundtrip(m[n - 1], (depth - 1) as nat);
        assert(m.take(n) =~= m.take(n - 1).push(m[n - 1]));
    }
}

/// Reading a message that was written gives it back.
pub proof fn message_roundtrip(m: Seq<InstructionView>)
    requires
        message_countable(m),
    ensures
        message_of(message_bytes(m)) == Some(m),
{
    prefix_reads_back(m, m.len() as int, Seq::empty());
    assert(message_bytes(m) + Seq::<u8>::empty() =~= message_bytes(m));
    assert(m.take(m.len() as int) =~= m);
}

impl HostMessage {
    /// The message on the wire.
    pub fn encode(&self) -> (res: Vec<u8>)
        ensures
            res@ == message_bytes(self@),
    {
        let mut out: Vec<u8> = Vec::new();
        let mut i: usize = 0;
        assert(out@ =~= message_prefix(self@, 0));
        while i < self.instruction.len()
            invariant
                i <= self.instruction@.len(),
                out@ == message_prefix(self@, i as int),
            decreases self.instruction@.len() - i,
        {
            let part = self.instruction[i].encode();
            push_bytes(&mut out, 1, &part);
            i = i + 1;
        }
        out
    }

    /// The message that a byte string denotes.
    pub fn decode(data: &[u8]) -> (res: Result<Self, DecodeError>)
        ensures
            match res {
                Ok(m) => message_of(data@) == Some(m@),
                Err(_) => message_of(data@) is None,
            },
    {
        let mut m = Self::new_blank();
        assert(data@.subrange(0, data@.len() as int) =~= data@);
        if wire::merge_all(&mut m, data, 0, data.len(), wire::RECURSION_LIMIT) {
            Ok(m)
        } else {
            Err(DecodeError)
        }
    }
}

} // verus!
