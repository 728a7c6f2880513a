//! What is wrong with bytes that are no instruction.

use crate::proto::transport;
use crate::proto::transport::Instruction;
use crate::proto::transport::InstructionView;
use crate::proto::wire;
use crate::proto::wire::key_at;
use crate::proto::wire::number_at;
use crate::proto::wire::value_end;
use crate::proto::wire::Message;
use crate::proto::wire::RECURSION_LIMIT;
use crate::text;
use crate::text::push_decimal;
use vstd::prelude::*;

verus! {

/// The name of a wire type.
pub open spec fn wire_name(wire: nat) -> Seq<char> {
    if wire == 0 {
        "Varint"@
    } else if wire == 1 {
        "SixtyFourBit"@
    } else if wire == 2 {
        "LengthDelimited"@
    } else if wire == 3 {
        "StartGroup"@
    } else if wire == 4 {
        "EndGroup"@
    } else {
        "ThirtyTwoBit"@
    }
}

/// What is wrong with a key that cannot be read.
pub open spec fn key_fault(data: Seq<u8>) -> Seq<char> {
    match wire::read_varint(data, 0) {
        None => "invalid varint"@,
        Some((key, _)) => if key > u32::MAX {
            "invalid key value: "@ + text::decimal(key)
        } else if key % 8 > 5 {
            "invalid wire type value: "@ + text::decimal(key % 8)
        } else {
            "invalid tag value: 0"@
        },
    }
}

/// What is wrong with a value that cannot be read.
pub open spec fn value_fault(data: Seq<u8>, wire: nat, num: nat, depth: nat) -> Seq<char>
    decreases data.len(), 1nat,
{
    if depth == 0 {
        "recursion limit reached"@
    } else if wire == 0 {
        "invalid varint"@
    } else if wire == 1 || wire == 5 {
        "buffer underflow"@
    } else if wire == 2 {
        if wire::read_varint(data, 0) is None {
            "invalid varint"@
        } else {
            "buffer underflow"@
        }
    } else if wire == 3 {
        group_fault(data, num, depth)
    } else {
        "unexpected end group tag"@
    }
}

/// What is wrong with a group that cannot be read.
pub open spec fn group_fault(data: Seq<u8>, num: nat, depth: nat) -> Seq<char>
    decreases data.len(), 0nat,
{
    match wire::read_key(data) {
        None => key_fault(data),
        Some((inner, wire, n)) => if wire == 4 || !(0 < n <= data.len()) || depth == 0 {
            "unexpected end group tag"@
        } else {
            match wire::value_len(data.skip(n), wire, inner, (depth - 1) as nat) {
                None => value_fault(data.skip(n), wire, inner, (depth - 1) as nat),
                Some(m) => if !(0 <= m <= data.len() - n) {
                    seq![]
                } else {
                    group_fault(data.skip(n + m), num, depth)
                },
            }
        },
    }
}

/// The wire type of a field of an instruction.
pub open spec fn field_wire(num: nat) -> nat {
    if num <= 5 {
        0
    } else {
        2
    }
}

/// Where a field of an instruction is named; an unknown field is not.
pub open spec fn location(num: nat) -> Seq<char> {
    if num == 1 {
        "Instruction.protocol_version: "@
    } else if num == 2 {
        "Instruction.old_num: "@
    } else if num == 3 {
        "Instruction.new_num: "@
    } else if num == 4 {
        "Instruction.ack_num: "@
    } else if num == 5 {
        "Instruction.throwaway_num: "@
    } else if num == 6 {
        "Instruction.diff: "@
    } else if num == 7 {
        "Instruction.chaff: "@
    } else {
        ""@
    }
}

/// What is wrong with a field of another wire type than the instruction has it.
pub open spec fn type_fault(wire: nat, expected: nat) -> Seq<char> {
    "invalid wire type: "@ + wire_name(wire) + " (expected "@ + wire_name(expected) + ")"@
}

/// The first fault in the bytes of an instruction, if there is one.
pub open spec fn instruction_fault(data: Seq<u8>) -> Option<Seq<char>>
    decreases data.len(),
{
    if data.len() == 0 {
        None
    } else {
        match wire::read_key(data) {
            None => Some(key_fault(data)),
            Some((num, wire, n)) => {
                let rest = data.skip(n);
                if num <= 7 && wire != field_wire(num) {
                    Some(location(num) + type_fault(wire, field_wire(num)))
                } else {
                    match wire::value_len(rest, wire, num, RECURSION_LIMIT as nat) {
                        None => Some(
                            location(num) + value_fault(rest, wire, num, RECURSION_LIMIT as nat),
                        ),
                        Some(m) => if !(0 < n + m <= data.len()) {
                            None
                        } else {
                            instruction_fault(data.skip(n + m))
                        },
                    }
                }
            },
        }
    }
}

/// There is a fault exactly in the bytes that cannot be merged into an instruction.
proof fn fault_where_unmerged(m: InstructionView, data: Seq<u8>)
    ensures
        instruction_fault(data) is Some <==> wire::all_merged::<Instruction>(
            m,
            data,
            RECURSION_LIMIT as nat,
        ) is None,
    decreases data.len(),
{
    if data.len() > 0 {
        wire::read_key_range(data);
        if let Some((num, wire, n)) = wire::read_key(data) {
            let depth = RECURSION_LIMIT as nat;
            wire::value_len_range(data.skip(n), wire, num, depth);
            if let Some((field, len)) = wire::read_field(data, depth) {
                if let Some(next) = Instruction::merged(m, field, depth) {
                    fault_where_unmerged(next, data.skip(len));
                }
            }
        }
    }
}

/// Bytes have a fault exactly if they denote no instruction.
pub proof fn fault_iff_refused(data: Seq<u8>)
    ensures
        instruction_fault(data) is Some <==> transport::instruction_of(data) is None,
{
    fault_where_unmerged(Instruction::blank(), data);
}

fn name_of_wire(wire: u8) -> (res: &'static str)
    ensures
        res@ == wire_name(wire as nat),
{
    if wire == 0 {
        "Varint"
    } else if wire == 1 {
        "SixtyFourBit"
    } else if wire == 2 {
        "LengthDelimited"
    } else if wire == 3 {
        "StartGroup"
    } else if wire == 4 {
        "EndGroup"
    } else {
        "ThirtyTwoBit"
    }
}

fn name_of_field(num: u32) -> (res: &'static str)
    ensures
        res@ == location(num as nat),
{
    if num == 1 {
        "Instruction.protocol_version: "
    } else if num == 2 {
        "Instruction.old_num: "
    } else if num == 3 {
        "Instruction.new_num: "
    } else if num == 4 {
        "Instruction.ack_num: "
    } else if num == 5 {
        "Instruction.throwaway_num: "
    } else if num == 6 {
        "Instruction.diff: "
    } else if num == 7 {
        "Instruction.chaff: "
    } else {
        ""
    }
}

/// Appends what is wrong with the key at a position.
fn push_key_fault(out: &mut String, data: &[u8], pos: usize)
    requires
        pos <= data@.len(),
    ensures
        final(out)@ == old(out)@ + key_fault(data@.skip(pos as int)),
{
    match number_at(data, pos, 0) {
        None => {
            out.push_str("invalid varint");
        },
        Some((key, _)) => {
            if key > u32::MAX as u64 {
                out.push_str("invalid key value: ");
                push_decimal(out, key);
            } else if key % 8 > 5 {
                out.push_str("invalid wire type value: ");
                push_decimal(out, key % 8);
            } else {
                out.push_str("invalid tag value: 0");
            }
        },
    }
    assert(out@ =~= old(out)@ + key_fault(data@.skip(pos as int)));
}

/// Appends what is wrong with the value at a position.
fn push_value_fault(out: &mut String, data: &[u8], pos: usize, wire: u8, num: u32, depth: u32)
    requires
        pos <= data@.len(),
    ensures
        final(out)@ == old(out)@ + value_fault(
            data@.skip(pos as int),
            wire as nat,
            num as nat,
            depth as nat,
        ),
    decreases data@.len() - pos, 1nat,
{
    if depth == 0 {
        out.push_str("recursion limit reached");
    } else if wire == 0 {
        out.push_str("invalid varint");
    } else if wire == 1 || wire == 5 {
        out.push_str("buffer underflow");
    } else if wire == 2 {
        if number_at(data, pos, 0).is_none() {
            out.push_str("invalid varint");
        } else {
            out.push_str("buffer underflow");
        }
    } else if wire == 3 {
        push_group_fault(out, data, pos, num, depth);
    } else {
        out.push_str("unexpected end group tag");
    }
}

/// Appends what is wrong with the group of which the rest starts at a position.
fn push_group_fault(out: &mut String, data: &[u8], pos: usize, num: u32, depth: u32)
    requires
        pos <= data@.len(),
        depth > 0,
    ensures
        final(out)@ == old(out)@ + group_fault(data@.skip(pos as int), num as nat, depth as nat),
    decreases data@.len() - pos, 0nat,
{
    let ghost rest = data@.skip(pos as int);
    match key_at(data, pos) {
        None => {
            push_key_fault(out, data, pos);
        },
        Some((inner, wire, next)) => {
            if wire == 4 {
                out.push_str("unexpected end group tag");
            } else {
                assert(rest.skip(next - pos) =~= data@.skip(next as int));
                match value_end(data, next, wire, inner, depth - 1) {
                    None => {
                        push_value_fault(out, data, next, wire, inner, depth - 1);
                    },
                    Some(after) => {
                        assert(rest.skip(after - pos) =~= data@.skip(after as int));
                        push_group_fault(out, data, after, num, depth);
                    },
                }
            }
        },
    }
}

/// Finds the first fault in the bytes of an instruction.
pub fn find_fault(data: &[u8]) -> (res: Option<String>)
    ensures
        match res {
            Some(fault) => instruction_fault(data@) == Some(fault@),
            None => instruction_fault(data@) is None,
        },
{
    let mut pos: usize = 0;
    assert(data@.skip(0) =~= data@);
    while pos < data.len()
        invariant
            pos <= data@.len(),
            instruction_fault(data@) == instruction_fault(data@.skip(pos as int)),
        decreases data@.len() - pos,
    {
        let ghost rest = data@.skip(pos as int);
        let mut out = String::new();
        match key_at(data, pos) {
            None => {
                push_key_fault(&mut out, data, pos);
                assert(out@ =~= key_fault(rest));
                return Some(out);
            },
            Some((num, wire, next)) => {
                assert(rest.skip(next - pos) =~= data@.skip(next as int));
                out.push_str(name_of_field(num));
                let expected: u8 = if num <= 5 {
                    0
                } else {
                    2
                };
                if num <= 7 && wire != expected {
                    out.push_str("invalid wire type: ");
                    out.push_str(name_of_wire(wire));
                    out.push_str(" (expected ");
                    out.push_str(name_of_wire(expected));
                    out.push_str(")");
                    assert(out@ =~= location(num as nat) + type_fault(
                        wire as nat,
                        expected as nat,
                    ));
                    return Some(out);
                }
                match value_end(data, next, wire, num, RECURSION_LIMIT) {
                    None => {
                        push_value_fault(&mut out, data, next, wire, num, RECURSION_LIMIT);
                        assert(out@ =~= location(num as nat) + value_fault(
                            rest.skip(next - pos),
                            wire as nat,
                            num as nat,
                            RECURSION_LIMIT as nat,
                        ));
                        return Some(out);
                    },
                    Some(end) => {
                        assert(rest.skip(end - pos) =~= data@.skip(end as int));
                        pos = end;
                    },
                }
            },
        }
    }
    None
}

/// The name of a field of an instruction.
pub open spec fn field_name(num: nat) -> Seq<char> {
    if num == 1 {
        "protocol_version"@
    } else if num == 2 {
        "old_num"@
    } else if num == 3 {
        "new_num"@
    } else if num == 4 {
        "ack_num"@
    } else if num == 5 {
        "throwaway_num"@
    } else if num == 6 {
        "diff"@
    } else {
        "chaff"@
    }
}

/// A field of an instruction that holds bytes where a number belongs, or a number where bytes belong,
/// is named together with both kinds.
pub proof fn wrong_kind_is_named(num: nat, rest: Seq<u8>)
    requires
        1 <= num <= 7,
    ensures
        num <= 5 ==> instruction_fault(seq![(8 * num + 2) as u8] + rest) == Some(
            "Instruction."@ + field_name(num)
                + ": invalid wire type: LengthDelimited (expected Varint)"@,
        ),
        num >= 6 ==> instruction_fault(seq![(8 * num) as u8] + rest) == Some(
            "Instruction."@ + field_name(num)
                + ": invalid wire type: Varint (expected LengthDelimited)"@,
        ),
{
    reveal_strlit("Instruction.");
    reveal_strlit("protocol_version");
    reveal_strlit("old_num");
    reveal_strlit("new_num");
    reveal_strlit("ack_num");
    reveal_strlit("throwaway_num");
    reveal_strlit("diff");
    reveal_strlit("chaff");
    reveal_strlit("Instruction.protocol_version: ");
    reveal_strlit("Instruction.old_num: ");
    reveal_strlit("Instruction.new_num: ");
    reveal_strlit("Instruction.ack_num: ");
    reveal_strlit("Instruction.throwaway_num: ");
    reveal_strlit("Instruction.diff: ");
    reveal_strlit("Instruction.chaff: ");
    reveal_strlit("invalid wire type: ");
    reveal_strlit(" (expected ");
    reveal_strlit(")");
    reveal_strlit("Varint");
    reveal_strlit("LengthDelimited");
    reveal_strlit(": invalid wire type: LengthDelimited (expected Varint)");
    reveal_strlit(": invalid wire type: Varint (expected LengthDelimited)");
    let a = seq![(8 * num + 2) as u8] + rest;
    let b = seq![(8 * num) as u8] + rest;
    assert(wire::read_varint(a, 0) == Some(((8 * num + 2) as nat, 1int)));
    assert(wire::read_varint(b, 0) == Some(((8 * num) as nat, 1int)));
    let to_number = type_fault(2, 0);
    let to_bytes = type_fault(0, 2);
    assert(to_number =~= ": invalid wire type: LengthDelimited (expected Varint)"@.skip(2));
    assert(to_bytes =~= ": invalid wire type: Varint (expected LengthDelimited)"@.skip(2));
    assert(location(num) =~= "Instruction."@ + field_name(num) + seq![':', ' ']);
    if num <= 5 {
        assert(location(num) + to_number =~= "Instruction."@ + field_name(num)
            + ": invalid wire type: LengthDelimited (expected Varint)"@);
    } else {
        assert(location(num) + to_bytes =~= "Instruction."@ + field_name(num)
            + ": invalid wire type: Varint (expected LengthDelimited)"@);
    }
}

/// What names a field in a message about it.
pub open spec fn named(num: nat) -> Seq<char> {
    if num <= 7 {
        "Instruction."@ + field_name(num) + seq![':', ' ']
    } else {
        seq![]
    }
}

proof fn location_names(num: nat)
    requires
        1 <= num,
    ensures
        location(num) == named(num),
{
    reveal_strlit("");
    reveal_strlit("Instruction.");
    reveal_strlit("protocol_version");
    reveal_strlit("old_num");
    reveal_strlit("new_num");
    reveal_strlit("ack_num");
    reveal_strlit("throwaway_num");
    reveal_strlit("diff");
    reveal_strlit("chaff");
    reveal_strlit("Instruction.protocol_version: ");
    reveal_strlit("Instruction.old_num: ");
    reveal_strlit("Instruction.new_num: ");
    reveal_strlit("Instruction.ack_num: ");
    reveal_strlit("Instruction.throwaway_num: ");
    reveal_strlit("Instruction.diff: ");
    reveal_strlit("Instruction.chaff: ");
    assert(location(num) =~= named(num));
}

/// A key that is no number, has more than thirty-two bits, is of an unknown kind, or has the field
/// number zero is told as such.
pub proof fn bad_keys_are_told(data: Seq<u8>)
    requires
        data.len() > 0,
    ensures
        wire::read_varint(data, 0) is None ==> instruction_fault(data) == Some("invalid varint"@),
        wire::read_varint(data, 0) is Some ==> {
            let key = wire::read_varint(data, 0).unwrap().0;
            &&& key > 0xffff_ffff ==> instruction_fault(data) == Some(
                "invalid key value: "@ + text::decimal(key),
            )
            &&& key <= 0xffff_ffff && key % 8 > 5 ==> instruction_fault(data) == Some(
                "invalid wire type value: "@ + text::decimal(key % 8),
            )
            &&& key < 6 ==> instruction_fault(data) == Some("invalid tag value: 0"@)
        },
{
}

/// A value that is cut off, or whose number is none, is told together with its field; and so is the
/// end of a group that never began.
pub proof fn bad_values_are_told(data: Seq<u8>)
    requires
        data.len() > 0,
        wire::read_key(data) is Some,
    ensures
        ({
            let (num, kind, n) = wire::read_key(data).unwrap();
            let rest = data.skip(n);
            let number = wire::read_varint(rest, 0);
            &&& kind == 0 && (num <= 5 || num > 7) && number is None ==> instruction_fault(data)
                == Some(named(num) + "invalid varint"@)
            &&& kind == 2 && num > 5 && number is None ==> instruction_fault(data) == Some(
                named(num) + "invalid varint"@,
            )
            &&& kind == 2 && num > 5 && number is Some && number.unwrap().1 + number.unwrap().0
                > rest.len() ==> instruction_fault(data) == Some(
                named(num) + "buffer underflow"@,
            )
            &&& kind == 1 && num > 7 && rest.len() < 8 ==> instruction_fault(data) == Some(
                named(num) + "buffer underflow"@,
            )
            &&& kind == 5 && num > 7 && rest.len() < 4 ==> instruction_fault(data) == Some(
                named(num) + "buffer underflow"@,
            )
            &&& kind == 4 && num > 7 ==> instruction_fault(data) == Some(
                named(num) + "unexpected end group tag"@,
            )
        }),
{
    wire::read_key_range(data);
    let (num, kind, n) = wire::read_key(data).unwrap();
    location_names(num);
    wire::other_values_are_skipped(data, num, 1);
    wire::read_varint_range(data.skip(n), 0);
}

} // verus!
