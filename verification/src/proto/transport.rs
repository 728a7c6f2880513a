//! The instruction that the transport layer exchanges.

use crate::proto::wire;
use crate::proto::wire::push_bytes;
use crate::proto::wire::push_number;
use crate::proto::wire::DecodeError;
use crate::proto::wire::Field;
use crate::proto::wire::Message;
use crate::proto::wire::RawField;
use vstd::prelude::*;

verus! {

/// The version of the protocol.
pub const MOSH_PROTOCOL_VERSION: u32 = 2;

/// One step of the sender's state, or an acknowledgment.
#[derive(Debug, PartialEq, Eq)]
pub struct Instruction {
    pub protocol_version: Option<u32>,
    pub old_num: Option<u64>,
    pub new_num: Option<u64>,
    pub ack_num: Option<u64>,
    pub throwaway_num: Option<u64>,
    pub diff: Option<Vec<u8>>,
    pub chaff: Option<Vec<u8>>,
}

/// What an instruction holds.
#[verifier::ext_equal]
pub struct InstructionView {
    pub protocol_version: Option<u32>,
    pub old_num: Option<u64>,
    pub new_num: Option<u64>,
    pub ack_num: Option<u64>,
    pub throwaway_num: Option<u64>,
    pub diff: Option<Seq<u8>>,
    pub chaff: Option<Seq<u8>>,
}

/// The bytes of an optional field.
pub open spec fn bytes_view(bytes: Option<Vec<u8>>) -> Option<Seq<u8>> {
    match bytes {
        Some(b) => Some(b@),
        None => None,
    }
}

impl View for Instruction {
    type V = InstructionView;

    open spec fn view(&self) -> InstructionView {
        InstructionView {
            protocol_version: self.protocol_version,
            old_num: self.old_num,
            new_num: self.new_num,
            ack_num: self.ack_num,
            throwaway_num: self.throwaway_num,
            diff: bytes_view(self.diff),
            chaff: bytes_view(self.chaff),
        }
    }
}

/// An optional number on the wire.
pub open spec fn opt_number(num: nat, value: Option<u64>) -> Seq<u8> {
    match value {
        Some(value) => wire::field_bytes(Field::Number { num, value }),
        None => seq![],
    }
}

/// Optional bytes on the wire.
pub open spec fn opt_bytes(num: nat, bytes: Option<Seq<u8>>) -> Seq<u8> {
    match bytes {
        Some(bytes) => wire::field_bytes(Field::Bytes { num, bytes }),
        None => seq![],
    }
}

/// An optional 32-bit number as a 64-bit one.
pub open spec fn widened(value: Option<u32>) -> Option<u64> {
    match value {
        Some(v) => Some(v as u64),
        None => None,
    }
}

/// An instruction on the wire: its fields in the order of their numbers.
pub open spec fn instruction_bytes(m: InstructionView) -> Seq<u8> {
    opt_number(1, widened(m.protocol_version)) + opt_number(2, m.old_num) + opt_number(3, m.new_num)
        + opt_number(4, m.ack_num) + opt_number(5, m.throwaway_num) + opt_bytes(6, m.diff)
        + opt_bytes(7, m.chaff)
}

/// The instruction that a byte string denotes, or `None` if it denotes none.
pub open spec fn instruction_of(data: Seq<u8>) -> Option<InstructionView> {
    wire::all_merged::<Instruction>(Instruction::blank(), data, wire::RECURSION_LIMIT as nat)
}

/// Appends an optional number.
pub(crate) fn push_opt_number(out: &mut Vec<u8>, num: u32, value: Option<u64>)
    requires
        num < 0x2000_0000,
    ensures
        final(out)@ == old(out)@ + opt_number(num as nat, value),
{
    match value {
        Some(value) => {
            push_number(out, num, value);
        },
        None => {
            assert(out@ =~= old(out)@ + opt_number(num as nat, value));
        },
    }
}

/// Appends optional bytes.
pub(crate) fn push_opt_bytes(out: &mut Vec<u8>, num: u32, bytes: &Option<Vec<u8>>)
    requires
        num < 0x2000_0000,
    ensures
        final(out)@ == old(out)@ + opt_bytes(num as nat, bytes_view(*bytes)),
{
    match bytes {
        Some(bytes) => {
            push_bytes(out, num, bytes);
        },
        None => {
            assert(out@ =~= old(out)@ + opt_bytes(num as nat, bytes_view(*bytes)));
        },
    }
}

/// The bytes between two positions.
pub(crate) fn copy_range(data: &[u8], start: usize, end: usize) -> (res: Vec<u8>)
    requires
        start <= end <= data@.len(),
    ensures
        res@ == data@.subrange(start as int, end as int),
{
    let mut res: Vec<u8> = Vec::new();
    res.extend_from_slice(vstd::slice::slice_subrange(data, start, end));
    assert(res@ =~= data@.subrange(start as int, end as int));
    res
}

/// A copy of optional bytes.
pub(crate) fn copy_opt(bytes: &Option<Vec<u8>>) -> (res: Option<Vec<u8>>)
    ensures
        bytes_view(res) == bytes_view(*bytes),
{
    match bytes {
        Some(b) => Some(copy_range(b.as_slice(), 0, b.len())),
        None => None,
    }
}

impl Clone for Instruction {
    fn clone(&self) -> (res: Self)
        ensures
            res@ == self@,
    {
        let res = Instruction {
            protocol_version: self.protocol_version,
            old_num: self.old_num,
            new_num: self.new_num,
            ack_num: self.ack_num,
            throwaway_num: self.throwaway_num,
            diff: copy_opt(&self.diff),
            chaff: copy_opt(&self.chaff),
        };
        assert(res@ =~= self@);
        res
    }
}

impl Default for Instruction {
    fn default() -> (res: Self)
        ensures
            res@ == Instruction::blank(),
    {
        Self::new_blank()
    }
}

impl Message for Instruction {
    open spec fn blank() -> InstructionView {
        InstructionView {
            protocol_version: None,
            old_num: None,
            new_num: None,
            ack_num: None,
            throwaway_num: None,
            diff: None,
            chaff: None,
        }
    }

    open spec fn merged(m: InstructionView, field: Field, depth: nat) -> Option<InstructionView> {
        match field {
            Field::Number { num, value } => if num == 1 {
                Some(
                    InstructionView {
                        protocol_version: Some((value % 0x1_0000_0000) as u32),
                        ..m
                    },
                )
            } else if num == 2 {
                Some(InstructionView { old_num: Some(value), ..m })
            } else if num == 3 {
                Some(InstructionView { new_num: Some(value), ..m })
            } else if num == 4 {
                Some(InstructionView { ack_num: Some(value), ..m })
            } else if num == 5 {
                Some(InstructionView { throwaway_num: Some(value), ..m })
            } else if num == 6 || num == 7 {
                None
            } else {
                Some(m)
            },
            Field::Bytes { num, bytes } => if num == 6 {
                Some(InstructionView { diff: Some(bytes), ..m })
            } else if num == 7 {
                Some(InstructionView { chaff: Some(bytes), ..m })
            } else if num <= 5 {
                None
            } else {
                Some(m)
            },
            Field::Other { num } => if num <= 7 {
                None
            } else {
                Some(m)
            },
        }
    }

    fn new_blank() -> (res: Self) {
        let res = Instruction {
            protocol_version: None,
            old_num: None,
            new_num: None,
            ack_num: None,
            throwaway_num: None,
            diff: None,
            chaff: None,
        };
        assert(res@ =~= Instruction::blank());
        res
    }

    fn merge_field(&mut self, data: &[u8], field: RawField, depth: u32) -> (fits: bool) {
        match field {
            RawField::Number { num, value } => {
                if num == 1 {
                    self.protocol_version = Some((value % 0x1_0000_0000) as u32);
                } else if num == 2 {
                    self.old_num = Some(value);
                } else if num == 3 {
                    self.new_num = Some(value);
                } else if num == 4 {
                    self.ack_num = Some(value);
                } else if num == 5 {
                    self.throwaway_num = Some(value);
                } else if num == 6 || num == 7 {
                    return false;
                }
            },
            RawField::Bytes { num, start, end } => {
                if num == 6 {
                    self.diff = Some(copy_range(data, start, end));
                } else if num == 7 {
                    self.chaff = Some(copy_range(data, start, end));
                } else if num <= 5 {
                    return false;
                }
            },
            RawField::Other { num } => {
                if num <= 7 {
                    return false;
                }
            },
        }
        true
    }
}

impl Instruction {
    /// The instruction on the wire.
    pub fn encode(&self) -> (res: Vec<u8>)
        ensures
            res@ == instruction_bytes(self@),
    {
        let mut out: Vec<u8> = Vec::new();
        let version: Option<u64> = match self.protocol_version {
            Some(v) => Some(v as u64),
            None => None,
        };
        push_opt_number(&mut out, 1, version);
        push_opt_number(&mut out, 2, self.old_num);
        push_opt_number(&mut out, 3, self.new_num);
        push_opt_number(&mut out, 4, self.ack_num);
        push_opt_number(&mut out, 5, self.throwaway_num);
        push_opt_bytes(&mut out, 6, &self.diff);
        push_opt_bytes(&mut out, 7, &self.chaff);
        assert(out@ =~= instruction_bytes(self@));
        out
    }

    /// The instruction that a byte string denotes.
    pub fn decode(data: &[u8]) -> (res: Result<Self, DecodeError>)
        ensures
            match res {
                Ok(m) => instruction_of(data@) == Some(m@),
                Err(_) => instruction_of(data@) is None,
            },
    {
        let mut m = Self::new_blank();
        assert(data@.subrange(0, data@.len() as int) =~= data@);
        if wire::merge_all(&mut m, data, 0, data.len(), wire::RECURSION_LIMIT) {
            Ok(m)
        } else {
            Err(DecodeError)
        }
    }
}

/// An optional number at the front is merged if it is there.
pub proof fn merge_opt_number<M: Message>(
    m: M::V,
    num: nat,
    value: Option<u64>,
    rest: Seq<u8>,
    depth: nat,
)
    requires
        1 <= num < 0x2000_0000,
        depth > 0,
        value matches Some(v) ==> M::merged(m, Field::Number { num, value: v }, depth) is Some,
    ensures
        wire::all_merged::<M>(m, opt_number(num, value) + rest, depth) == wire::all_merged::<M>(
            match value {
                Some(v) => M::merged(m, Field::Number { num, value: v }, depth)->0,
                None => m,
            },
            rest,
            depth,
        ),
{
    match value {
        Some(v) => {
            wire::merge_written::<M>(m, Field::Number { num, value: v }, rest, depth);
        },
        None => {
            assert(opt_number(num, value) + rest =~= rest);
        },
    }
}

/// Optional bytes at the front are merged if they are there.
pub proof fn merge_opt_bytes<M: Message>(
    m: M::V,
    num: nat,
    bytes: Option<Seq<u8>>,
    rest: Seq<u8>,
    depth: nat,
)
    requires
        1 <= num < 0x2000_0000,
        depth > 0,
        bytes matches Some(b) ==> b.len() <= u64::MAX && M::merged(
            m,
            Field::Bytes { num, bytes: b },
            depth,
        ) is Some,
    ensures
        wire::all_merged::<M>(m, opt_bytes(num, bytes) + rest, depth) == wire::all_merged::<M>(
            match bytes {
                Some(b) => M::merged(m, Field::Bytes { num, bytes: b }, depth)->0,
                None => m,
            },
            rest,
            depth,
        ),
{
    match bytes {
        Some(b) => {
            wire::merge_written::<M>(m, Field::Bytes { num, bytes: b }, rest, depth);
        },
        None => {
            assert(opt_bytes(num, bytes) + rest =~= rest);
        },
    }
}

/// Whether optional bytes can be counted in 64 bits.
pub open spec fn countable(bytes: Option<Seq<u8>>) -> bool {
    bytes matches Some(b) ==> b.len() <= u64::MAX
}

/// Reading an instruction that was written gives it back.
pub proof fn instruction_roundtrip(m: InstructionView)
    requires
        countable(m.diff),
        countable(m.chaff),
    ensures
        instruction_of(instruction_bytes(m)) == Some(m),
{
    let depth = wire::RECURSION_LIMIT as nat;
    let p7 = opt_bytes(7, m.chaff);
    let p6 = opt_bytes(6, m.diff) + p7;
    let p5 = opt_number(5, m.throwaway_num) + p6;
    let p4 = opt_number(4, m.ack_num) + p5;
    let p3 = opt_number(3, m.new_num) + p4;
    let p2 = opt_number(2, m.old_num) + p3;
    let p1 = opt_number(1, widened(m.protocol_version)) + p2;
    seven_from_right(
        opt_number(1, widened(m.protocol_version)),
        opt_number(2, m.old_num),
        opt_number(3, m.new_num),
        opt_number(4, m.ack_num),
        opt_number(5, m.throwaway_num),
        opt_bytes(6, m.diff),
        p7,
    );
    let m0 = Instruction::blank();
    let m1 = InstructionView { protocol_version: m.protocol_version, ..m0 };
    let m2 = InstructionView { old_num: m.old_num, ..m1 };
    let m3 = InstructionView { new_num: m.new_num, ..m2 };
    let m4 = InstructionView { ack_num: m.ack_num, ..m3 };
    let m5 = InstructionView { throwaway_num: m.throwaway_num, ..m4 };
    let m6 = InstructionView { diff: m.diff, ..m5 };
    merge_opt_number::<Instruction>(m0, 1, widened(m.protocol_version), p2, depth);
    merge_opt_number::<Instruction>(m1, 2, m.old_num, p3, depth);
    merge_opt_number::<Instruction>(m2, 3, m.new_num, p4, depth);
    merge_opt_number::<Instruction>(m3, 4, m.ack_num, p5, depth);
    merge_opt_number::<Instruction>(m4, 5, m.throwaway_num, p6, depth);
    merge_opt_bytes::<Instruction>(m5, 6, m.diff, p7, depth);
    assert(p7 + Seq::<u8>::empty() =~= p7);
    merge_opt_bytes::<Instruction>(m6, 7, m.chaff, Seq::empty(), depth);
}

proof fn seven_from_right(
    a: Seq<u8>,
    b: Seq<u8>,
    c: Seq<u8>,
    d: Seq<u8>,
    e: Seq<u8>,
    f: Seq<u8>,
    g: Seq<u8>,
)
    ensures
        a + b + c + d + e + f + g == a + (b + (c + (d + (e + (f + g))))),
{
    assert(a + b + c + d + e + f + g =~= a + (b + (c + (d + (e + (f + g))))));
}

} // verus!
