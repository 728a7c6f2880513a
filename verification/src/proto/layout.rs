//! The messages byte by byte: which byte begins which field, and how numbers are written.

use crate::proto::client;
use crate::proto::host;
use crate::proto::resize;
use crate::proto::resize::ResizeMessage;
use crate::proto::transport;
use crate::proto::wire;
use crate::proto::wire::Field;
use crate::proto::wire::Message;
use vstd::prelude::*;

verus! {

/// The number that groups of seven bits denote, the least significant one first.
pub open spec fn groups_value(s: Seq<u8>) -> nat
    decreases s.len(),
{
    if s.len() == 0 {
        0
    } else {
        s[0] as nat % 128 + 128 * groups_value(s.drop_first())
    }
}

/// A number is written in groups of seven bits, the least significant one first, as few as it takes:
/// every byte but the last has its top bit set, and the last is not zero unless it is the only one.
pub proof fn numbers_are_written_in_groups(v: nat)
    ensures
        ({
            let s = wire::varint(v);
            &&& s.len() > 0
            &&& groups_value(s) == v
            &&& s.last() < 128
            &&& s.len() > 1 ==> s.last() > 0
            &&& forall|i: int| 0 <= i < s.len() - 1 ==> #[trigger] s[i] >= 128
        }),
    decreases v,
{
    let s = wire::varint(v);
    if v < 128 {
        assert(s.drop_first() =~= seq![]);
        assert(groups_value(s.drop_first()) == 0);
    } else {
        let rest = wire::varint(v / 128);
        numbers_are_written_in_groups(v / 128);
        assert(s.drop_first() =~= rest);
        assert(s.last() == rest.last());
        if v / 128 < 128 {
            assert(rest.len() == 1);
        }
        assert forall|i: int| 0 <= i < s.len() - 1 implies #[trigger] s[i] >= 128 by {
            if i > 0 {
                assert(s[i] == rest[i - 1]);
            }
        }
    }
}

/// An optional number after the byte that begins its field.
pub open spec fn tagged_number(tag: u8, value: Option<u64>) -> Seq<u8> {
    match value {
        Some(v) => seq![tag] + wire::varint(v as nat),
        None => seq![],
    }
}

/// Optional bytes after the byte that begins their field, and their length.
pub open spec fn tagged_bytes(tag: u8, bytes: Option<Seq<u8>>) -> Seq<u8> {
    match bytes {
        Some(b) => seq![tag] + wire::varint(b.len()) + b,
        None => seq![],
    }
}

proof fn tags(num: nat, value: Option<u64>, bytes: Option<Seq<u8>>)
    requires
        1 <= num < 16,
    ensures
        transport::opt_number(num, value) == tagged_number((8 * num) as u8, value),
        transport::opt_bytes(num, bytes) == tagged_bytes((8 * num + 2) as u8, bytes),
{
    assert(wire::varint(num * 8) =~= seq![(8 * num) as u8]);
    assert(wire::varint(num * 8 + 2) =~= seq![(8 * num + 2) as u8]);
}

/// An instruction of the transport: its version, the states it leads from and to, what it
/// acknowledges and throws away, its diff and its chaff, in this order; what it lacks is left out.
pub proof fn transport_instruction_layout(m: transport::InstructionView)
    ensures
        transport::instruction_bytes(m) == tagged_number(
            0x08,
            match m.protocol_version {
                Some(v) => Some(v as u64),
                None => None,
            },
        ) + tagged_number(0x10, m.old_num) + tagged_number(0x18, m.new_num) + tagged_number(
            0x20,
            m.ack_num,
        ) + tagged_number(0x28, m.throwaway_num) + tagged_bytes(0x32, m.diff) + tagged_bytes(
            0x3a,
            m.chaff,
        ),
{
    tags(1, transport::widened(m.protocol_version), None);
    tags(2, m.old_num, None);
    tags(3, m.new_num, None);
    tags(4, m.ack_num, None);
    tags(5, m.throwaway_num, None);
    tags(6, None, m.diff);
    tags(7, None, m.chaff);
}

/// A signed number as sixty-four bits: a negative one counts down from the top.
pub open spec fn two_complement(v: i32) -> u64 {
    if v < 0 {
        (u64::MAX + 1 + v) as u64
    } else {
        v as u64
    }
}

/// Optional signed bits.
pub open spec fn two_complement_opt(v: Option<i32>) -> Option<u64> {
    match v {
        Some(v) => Some(two_complement(v)),
        None => None,
    }
}

/// Dimensions: the width, then the height.
pub open spec fn dimensions(m: ResizeMessage) -> Seq<u8> {
    tagged_number(0x28, two_complement_opt(m.width)) + tagged_number(
        0x30,
        two_complement_opt(m.height),
    )
}

proof fn resize_layout(m: ResizeMessage)
    ensures
        resize::resize_bytes(m) == dimensions(m),
{
    tags(5, resize::opt_to_wire(m.width), None);
    tags(6, resize::opt_to_wire(m.height), None);
    assert(resize::opt_to_wire(m.width) == two_complement_opt(m.width));
    assert(resize::opt_to_wire(m.height) == two_complement_opt(m.height));
}

/// An instruction of the client: keys in a message of their own, dimensions in another.
pub proof fn client_instruction_layout(m: client::InstructionView)
    ensures
        client::instruction_bytes(m) == tagged_bytes(
            0x12,
            match m.keystroke {
                Some(k) => Some(tagged_bytes(0x22, k.keys)),
                None => None,
            },
        ) + tagged_bytes(
            0x1a,
            match m.resize {
                Some(r) => Some(dimensions(r)),
                None => None,
            },
        ),
{
    tags(2, None, client::part_keys(m.keystroke));
    tags(3, None, client::part_resize(m.resize));
    match m.keystroke {
        Some(k) => tags(4, None, k.keys),
        None => {},
    }
    match m.resize {
        Some(r) => resize_layout(r),
        None => {},
    }
}

/// An instruction of the server: terminal output in a message of its own, dimensions in another, and
/// an acknowledgment in a third.
pub proof fn host_instruction_layout(m: host::InstructionView)
    ensures
        host::instruction_bytes(m) == tagged_bytes(
            0x12,
            match m.hostbytes {
                Some(h) => Some(tagged_bytes(0x22, h.hoststring)),
                None => None,
            },
        ) + tagged_bytes(
            0x1a,
            match m.resize {
                Some(r) => Some(dimensions(r)),
                None => None,
            },
        ) + tagged_bytes(
            0x3a,
            match m.echoack {
                Some(a) => Some(tagged_number(0x40, a.echo_ack_num)),
                None => None,
            },
        ),
{
    tags(2, None, host::part_hoststring(m.hostbytes));
    tags(3, None, host::part_resize(m.resize));
    tags(7, None, host::part_echo(m.echoack));
    match m.hostbytes {
        Some(h) => tags(4, None, h.hoststring),
        None => {},
    }
    match m.resize {
        Some(r) => resize_layout(r),
        None => {},
    }
    match m.echoack {
        Some(a) => tags(8, a.echo_ack_num, None),
        None => {},
    }
}

/// A message is its instructions one after the other, each with its length before it.
pub proof fn client_message_layout(m: Seq<client::InstructionView>, last: client::InstructionView)
    ensures
        client::message_bytes(seq![]) == Seq::<u8>::empty(),
        client::message_bytes(m.push(last)) == client::message_bytes(m) + tagged_bytes(
            0x0a,
            Some(client::instruction_bytes(last)),
        ),
{
    tags(1, None, Some(client::instruction_bytes(last)));
    client_prefix(m, last, m.len() as int);
}

proof fn client_prefix(m: Seq<client::InstructionView>, last: client::InstructionView, n: int)
    requires
        0 <= n <= m.len(),
    ensures
        client::message_prefix(m.push(last), n) == client::message_prefix(m, n),
    decreases n,
{
    if n > 0 {
        client_prefix(m, last, n - 1);
        assert(m.push(last)[n - 1] == m[n - 1]);
    }
}

/// A message is its instructions one after the other, each with its length before it.
pub proof fn host_message_layout(m: Seq<host::InstructionView>, last: host::InstructionView)
    ensures
        host::message_bytes(seq![]) == Seq::<u8>::empty(),
        host::message_bytes(m.push(last)) == host::message_bytes(m) + tagged_bytes(
            0x0a,
            Some(host::instruction_bytes(last)),
        ),
{
    tags(1, None, Some(host::instruction_bytes(last)));
    host_prefix(m, last, m.len() as int);
}

proof fn host_prefix(m: Seq<host::InstructionView>, last: host::InstructionView, n: int)
    requires
        0 <= n <= m.len(),
    ensures
        host::message_prefix(m.push(last), n) == host::message_prefix(m, n),
    decreases n,
{
    if n > 0 {
        host_prefix(m, last, n - 1);
        assert(m.push(last)[n - 1] == m[n - 1]);
    }
}

/// A field of an instruction of the transport replaces what was read for it before and leaves the
/// others alone; one of another kind than it should be is refused, and unknown ones are skipped.
pub proof fn transport_fields_are_read(
    m: transport::InstructionView,
    num: nat,
    value: u64,
    bytes: Seq<u8>,
    depth: nat,
)
    ensures
        ({
            let read = transport::Instruction::merged(m, Field::Number { num, value }, depth);
            &&& num == 1 ==> read == Some(
                transport::InstructionView {
                    protocol_version: Some((value % 0x1_0000_0000) as u32),
                    ..m
                },
            )
            &&& num == 2 ==> read == Some(
                transport::InstructionView { old_num: Some(value), ..m },
            )
            &&& num == 3 ==> read == Some(
                transport::InstructionView { new_num: Some(value), ..m },
            )
            &&& num == 4 ==> read == Some(
                transport::InstructionView { ack_num: Some(value), ..m },
            )
            &&& num == 5 ==> read == Some(
                transport::InstructionView { throwaway_num: Some(value), ..m },
            )
            &&& num == 6 || num == 7 ==> read is None
            &&& num > 7 ==> read == Some(m)
        }),
        ({
            let read = transport::Instruction::merged(m, Field::Bytes { num, bytes }, depth);
            &&& num == 6 ==> read == Some(transport::InstructionView { diff: Some(bytes), ..m })
            &&& num == 7 ==> read == Some(transport::InstructionView { chaff: Some(bytes), ..m })
            &&& 1 <= num <= 5 ==> read is None
            &&& num > 7 ==> read == Some(m)
        }),
{
}

} // verus!
