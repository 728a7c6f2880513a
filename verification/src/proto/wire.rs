//! The wire format: a message is a sequence of fields, each with a number, a wire type and a value.

use vstd::prelude::*;

verus! {

/// How deep groups and messages may nest.
pub const RECURSION_LIMIT: u32 = 100;

/// A number in base 128, least significant group first; every byte but the last has its top bit
/// set.
pub open spec fn varint(v: nat) -> Seq<u8>
    decreases v,
{
    if v < 128 {
        seq![v as u8]
    } else {
        seq![(v % 128 + 128) as u8] + varint(v / 128)
    }
}

/// The number at the front of the bytes and its length, where `count` bytes of it were read before.
/// A number has at most ten bytes and fits in 64 bits.
pub open spec fn read_varint(data: Seq<u8>, count: int) -> Option<(nat, int)>
    decreases data.len(),
{
    if data.len() == 0 || count >= 10 {
        None
    } else if data[0] < 128 {
        if count == 9 && data[0] >= 2 {
            None
        } else {
            Some((data[0] as nat, 1))
        }
    } else {
        match read_varint(data.drop_first(), count + 1) {
            Some((v, n)) => Some(((data[0] - 128 + 128 * v) as nat, n + 1)),
            None => None,
        }
    }
}

/// The number at the front of the bytes; zero if there is none.
pub open spec fn varint_value(data: Seq<u8>) -> nat {
    match read_varint(data, 0) {
        Some((v, n)) => v,
        None => 0,
    }
}

/// The length of the number at the front of the bytes; zero if there is none.
pub open spec fn varint_len(data: Seq<u8>) -> int {
    match read_varint(data, 0) {
        Some((v, n)) => n,
        None => 0,
    }
}

/// A bound on a number of which `count` bytes were read before.
pub open spec fn varint_bound(count: int) -> nat
    decreases 9 - count,
{
    if count >= 9 {
        2
    } else {
        128 * varint_bound(count + 1)
    }
}

/// The key at the front of the bytes: field number, wire type and the key's length.
pub open spec fn read_key(data: Seq<u8>) -> Option<(nat, nat, int)> {
    match read_varint(data, 0) {
        Some((key, n)) => if key > u32::MAX || key % 8 > 5 || key / 8 < 1 {
            None
        } else {
            Some((key / 8, key % 8, n))
        },
        None => None,
    }
}

/// The length of a value of the given wire type at the front of the bytes. `num` is the number of
/// its field, which the end of a group repeats; `depth` is how deep groups may still nest.
pub open spec fn value_len(data: Seq<u8>, wire: nat, num: nat, depth: nat) -> Option<int>
    decreases data.len(), 1nat,
{
    if depth == 0 {
        None
    } else if wire == 0 {
        match read_varint(data, 0) {
            Some((_, n)) => Some(n),
            None => None,
        }
    } else if wire == 1 {
        if data.len() >= 8 {
            Some(8)
        } else {
            None
        }
    } else if wire == 5 {
        if data.len() >= 4 {
            Some(4)
        } else {
            None
        }
    } else if wire == 2 {
        match read_varint(data, 0) {
            Some((len, n)) => if n + len <= data.len() {
                Some(n + len)
            } else {
                None
            },
            None => None,
        }
    } else if wire == 3 {
        group_len(data, num, depth)
    } else {
        None
    }
}

/// The length of what is left of the group of field `num`, its end included.
pub open spec fn group_len(data: Seq<u8>, num: nat, depth: nat) -> Option<int>
    decreases data.len(), 0nat,
{
    match read_key(data) {
        None => None,
        Some((inner, wire, n)) => if !(0 < n <= data.len()) || depth == 0 {
            None
        } else if wire == 4 {
            if inner == num {
                Some(n)
            } else {
                None
            }
        } else {
            match value_len(data.skip(n), wire, inner, (depth - 1) as nat) {
                None => None,
                Some(m) => if !(0 <= m <= data.len() - n) {
                    None
                } else {
                    match group_len(data.skip(n + m), num, depth) {
                        None => None,
                        Some(rest) => Some(n + m + rest),
                    }
                },
            }
        },
    }
}

/// A field of a message.
pub enum Field {
    /// A number.
    Number { num: nat, value: u64 },
    /// Bytes: a string, or a message of its own.
    Bytes { num: nat, bytes: Seq<u8> },
    /// A value of another wire type, which no message here uses.
    Other { num: nat },
}

/// The field at the front of the bytes and its length.
pub open spec fn read_field(data: Seq<u8>, depth: nat) -> Option<(Field, int)> {
    match read_key(data) {
        None => None,
        Some((num, wire, n)) => {
            let rest = data.skip(n);
            match value_len(rest, wire, num, depth) {
                None => None,
                Some(m) => if wire == 0 {
                    Some((Field::Number { num, value: varint_value(rest) as u64 }, n + m))
                } else if wire == 2 {
                    Some(
                        (
                            Field::Bytes { num, bytes: rest.subrange(varint_len(rest), m) },
                            n + m,
                        ),
                    )
                } else {
                    Some((Field::Other { num }, n + m))
                },
            }
        },
    }
}

/// A field on the wire.
pub open spec fn field_bytes(field: Field) -> Seq<u8> {
    match field {
        Field::Number { num, value } => varint(num * 8) + varint(value as nat),
        Field::Bytes { num, bytes } => varint(num * 8 + 2) + varint(bytes.len()) + bytes,
        Field::Other { num } => seq![],
    }
}

/// A field that can be written: its number is in range and its bytes can be counted.
pub open spec fn writable(field: Field) -> bool {
    match field {
        Field::Number { num, value } => 1 <= num < 0x2000_0000,
        Field::Bytes { num, bytes } => 1 <= num < 0x2000_0000 && bytes.len() <= u64::MAX,
        Field::Other { num } => false,
    }
}

/// The bounds of the numbers of which no byte, or nine bytes, were read before.
pub proof fn varint_bounds()
    ensures
        varint_bound(0) == 0x1_0000_0000_0000_0000,
        varint_bound(9) == 2,
{
    reveal_with_fuel(varint_bound, 10);
}

/// A number that was read is within its bound, and its length is within the bytes.
pub proof fn read_varint_range(data: Seq<u8>, count: int)
    requires
        0 <= count,
    ensures
        read_varint(data, count) matches Some((v, n)) ==> {
            &&& v < varint_bound(count)
            &&& 0 < n <= data.len()
        },
    decreases data.len(),
{
    if data.len() > 0 && count < 10 && data[0] >= 128 {
        read_varint_range(data.drop_first(), count + 1);
        if count == 9 {
            assert(read_varint(data.drop_first(), count + 1) is None);
        }
    } else if data.len() > 0 && count < 9 && data[0] < 128 {
        varint_bound_floor(count);
    }
}

proof fn varint_bound_floor(count: int)
    requires
        0 <= count < 9,
    ensures
        varint_bound(count) >= 256,
    decreases 9 - count,
{
    if count < 8 {
        varint_bound_floor(count + 1);
    } else {
        assert(varint_bound(9) == 2);
    }
}

/// Reading a number that was written gives it back, whatever follows.
pub proof fn varint_reads_back(v: nat, count: int, rest: Seq<u8>)
    requires
        0 <= count <= 9,
        v < varint_bound(count),
    ensures
        read_varint(varint(v) + rest, count) == Some((v, varint(v).len() as int)),
        0 < varint(v).len() <= 10 - count,
    decreases v,
{
    let data = varint(v) + rest;
    if v < 128 {
        assert(data[0] == v);
    } else {
        assert(count < 9);
        assert(varint_bound(count) == 128 * varint_bound(count + 1));
        varint_reads_back(v / 128, count + 1, rest);
        assert(data.drop_first() =~= varint(v / 128) + rest);
    }
}

/// The length of a key is positive and within the bytes.
pub proof fn read_key_range(data: Seq<u8>)
    ensures
        read_key(data) matches Some((num, wire, n)) ==> {
            &&& 1 <= num < 0x2000_0000
            &&& wire <= 5
            &&& 0 < n <= data.len()
        },
{
    read_varint_range(data, 0);
}

/// The length of a value is within the bytes.
pub proof fn value_len_range(data: Seq<u8>, wire: nat, num: nat, depth: nat)
    ensures
        value_len(data, wire, num, depth) matches Some(m) ==> 0 <= m <= data.len(),
    decreases data.len(), 1nat,
{
    read_varint_range(data, 0);
    if wire == 3 && depth > 0 {
        group_len_range(data, num, depth);
    }
}

proof fn group_len_range(data: Seq<u8>, num: nat, depth: nat)
    ensures
        group_len(data, num, depth) matches Some(m) ==> 0 <= m <= data.len(),
    decreases data.len(), 0nat,
{
    read_key_range(data);
    if let Some((inner, wire, n)) = read_key(data) {
        if depth > 0 && wire != 4 {
            value_len_range(data.skip(n), wire, inner, (depth - 1) as nat);
            if let Some(m) = value_len(data.skip(n), wire, inner, (depth - 1) as nat) {
                group_len_range(data.skip(n + m), num, depth);
            }
        }
    }
}

/// Reading a field that was written gives it back, whatever follows.
pub proof fn field_reads_back(field: Field, rest: Seq<u8>, depth: nat)
    requires
        writable(field),
        depth > 0,
    ensures
        read_field(field_bytes(field) + rest, depth) == Some(
            (field, field_bytes(field).len() as int),
        ),
        field_bytes(field).len() > 0,
{
    varint_bounds();
    let data = field_bytes(field) + rest;
    match field {
        Field::Number { num, value } => {
            let tail = varint(value as nat) + rest;
            varint_reads_back(num * 8, 0, tail);
            assert(data =~= varint(num * 8) + tail);
            let n = varint(num * 8).len() as int;
            assert(data.skip(n) =~= tail);
            varint_reads_back(value as nat, 0, rest);
        },
        Field::Bytes { num, bytes } => {
            let tail = varint(bytes.len()) + (bytes + rest);
            varint_reads_back(num * 8 + 2, 0, tail);
            assert(data =~= varint(num * 8 + 2) + tail);
            let n = varint(num * 8 + 2).len() as int;
            assert(data.skip(n) =~= tail);
            varint_reads_back(bytes.len(), 0, bytes + rest);
            let k = varint(bytes.len()).len() as int;
            assert(tail.subrange(k, k + bytes.len()) =~= bytes);
        },
        Field::Other { num } => {},
    }
}

/// Bytes that are no message.
#[derive(Debug, Clone, Copy, PartialEq, Eq, Structural)]
pub struct DecodeError;

/// Appends a number in base 128.
pub fn push_varint(out: &mut Vec<u8>, v: u64)
    ensures
        final(out)@ == old(out)@ + varint(v as nat),
    decreases v,
{
    if v < 128 {
        out.push(v as u8);
        assert(out@ =~= old(out)@ + varint(v as nat));
    } else {
        out.push((v % 128 + 128) as u8);
        push_varint(out, v / 128);
        assert(out@ =~= old(out)@ + varint(v as nat));
    }
}

/// Appends a field with a number.
pub fn push_number(out: &mut Vec<u8>, num: u32, value: u64)
    requires
        num < 0x2000_0000,
    ensures
        final(out)@ == old(out)@ + field_bytes(Field::Number { num: num as nat, value }),
{
    push_varint(out, num as u64 * 8);
    push_varint(out, value);
    assert(out@ =~= old(out)@ + field_bytes(Field::Number { num: num as nat, value }));
}

/// Appends a field with bytes.
pub fn push_bytes(out: &mut Vec<u8>, num: u32, bytes: &Vec<u8>)
    requires
        num < 0x2000_0000,
    ensures
        final(out)@ == old(out)@ + field_bytes(
            Field::Bytes { num: num as nat, bytes: bytes@ },
        ),
{
    push_varint(out, num as u64 * 8 + 2);
    push_varint(out, bytes.len() as u64);
    out.extend_from_slice(bytes.as_slice());
    assert(out@ =~= old(out)@ + field_bytes(Field::Bytes { num: num as nat, bytes: bytes@ }));
}

/// Reads the number at a position, of which `count` bytes were read before.
pub(crate) fn number_at(data: &[u8], pos: usize, count: u32) -> (res: Option<(u64, usize)>)
    requires
        pos <= data@.len(),
        count <= 10,
    ensures
        match res {
            Some((v, next)) => {
                &&& read_varint(data@.skip(pos as int), count as int) == Some(
                    (v as nat, next - pos),
                )
                &&& pos < next <= data@.len()
            },
            None => read_varint(data@.skip(pos as int), count as int) is None,
        },
    decreases data@.len() - pos,
{
    let ghost rest = data@.skip(pos as int);
    if pos >= data.len() || count >= 10 {
        return None;
    }
    let b: u8 = data[pos];
    assert(rest[0] == b);
    if b < 128 {
        if count == 9 && b >= 2 {
            None
        } else {
            Some((b as u64, pos + 1))
        }
    } else {
        assert(rest.drop_first() =~= data@.skip(pos + 1));
        match number_at(data, pos + 1, count + 1) {
            Some((v, next)) => {
                proof {
                    read_varint_range(rest, count as int);
                    varint_bounds();
                    varint_bound_monotone(count as int);
                }
                Some(((b - 128) as u64 + 128 * v, next))
            },
            None => None,
        }
    }
}

proof fn varint_bound_monotone(count: int)
    requires
        0 <= count,
    ensures
        varint_bound(count) <= varint_bound(0),
    decreases count,
{
    if count > 0 {
        varint_bound_monotone(count - 1);
    }
}

/// Reads the key at a position: field number, wire type and where the value starts.
pub(crate) fn key_at(data: &[u8], pos: usize) -> (res: Option<(u32, u8, usize)>)
    requires
        pos <= data@.len(),
    ensures
        match res {
            Some((num, wire, next)) => {
                &&& read_key(data@.skip(pos as int)) == Some((num as nat, wire as nat, next - pos))
                &&& pos < next <= data@.len()
            },
            None => read_key(data@.skip(pos as int)) is None,
        },
{
    match number_at(data, pos, 0) {
        Some((key, next)) => {
            if key > u32::MAX as u64 || key % 8 > 5 || key / 8 < 1 {
                None
            } else {
                Some(((key / 8) as u32, (key % 8) as u8, next))
            }
        },
        None => None,
    }
}

/// The end of the value at a position.
pub(crate) fn value_end(data: &[u8], pos: usize, wire: u8, num: u32, depth: u32) -> (res: Option<usize>)
    requires
        pos <= data@.len(),
    ensures
        match res {
            Some(next) => {
                &&& value_len(data@.skip(pos as int), wire as nat, num as nat, depth as nat)
                    == Some(next - pos)
                &&& pos <= next <= data@.len()
            },
            None => value_len(data@.skip(pos as int), wire as nat, num as nat, depth as nat)
                is None,
        },
    decreases data@.len() - pos, 1nat,
{
    let left: usize = data.len() - pos;
    if depth == 0 {
        return None;
    }
    if wire == 0 {
        match number_at(data, pos, 0) {
            Some((_, next)) => Some(next),
            None => None,
        }
    } else if wire == 1 {
        if left >= 8 {
            Some(pos + 8)
        } else {
            None
        }
    } else if wire == 5 {
        if left >= 4 {
            Some(pos + 4)
        } else {
            None
        }
    } else if wire == 2 {
        match number_at(data, pos, 0) {
            Some((len, next)) => {
                let room: usize = data.len() - next;
                if len <= room as u64 {
                    Some(next + len as usize)
                } else {
                    None
                }
            },
            None => None,
        }
    } else if wire == 3 {
        group_end(data, pos, num, depth)
    } else {
        None
    }
}

/// The end of the group of field `num` of which the rest starts at a position.
fn group_end(data: &[u8], pos: usize, num: u32, depth: u32) -> (res: Option<usize>)
    requires
        pos <= data@.len(),
        depth > 0,
    ensures
        match res {
            Some(next) => {
                &&& group_len(data@.skip(pos as int), num as nat, depth as nat) == Some(next - pos)
                &&& pos <= next <= data@.len()
            },
            None => group_len(data@.skip(pos as int), num as nat, depth as nat) is None,
        },
    decreases data@.len() - pos, 0nat,
{
    let ghost rest = data@.skip(pos as int);
    match key_at(data, pos) {
        None => None,
        Some((inner, wire, next)) => {
            if wire == 4 {
                if inner == num {
                    Some(next)
                } else {
                    None
                }
            } else {
                assert(rest.skip(next - pos) =~= data@.skip(next as int));
                match value_end(data, next, wire, inner, depth - 1) {
                    None => None,
                    Some(after) => {
                        assert(rest.skip(after - pos) =~= data@.skip(after as int));
                        group_end(data, after, num, depth)
                    },
                }
            }
        },
    }
}

/// A field in a byte string, its bytes given by their position.
#[derive(Clone, Copy, Debug)]
pub enum RawField {
    Number { num: u32, value: u64 },
    Bytes { num: u32, start: usize, end: usize },
    Other { num: u32 },
}

impl RawField {
    /// The field in the byte string `data`.
    pub open spec fn of(self, data: Seq<u8>) -> Field {
        match self {
            RawField::Number { num, value } => Field::Number { num: num as nat, value },
            RawField::Bytes { num, start, end } => Field::Bytes {
                num: num as nat,
                bytes: data.subrange(start as int, end as int),
            },
            RawField::Other { num } => Field::Other { num: num as nat },
        }
    }

    /// Whether the field's bytes lie in a byte string of length `n`.
    pub open spec fn inside(self, n: int) -> bool {
        self matches RawField::Bytes { num, start, end } ==> start <= end <= n
    }
}

/// Reads the field at a position, and gives where the next starts.
pub fn field_at(data: &[u8], pos: usize, depth: u32) -> (res: Option<(RawField, usize)>)
    requires
        pos <= data@.len(),
    ensures
        match res {
            Some((field, next)) => {
                &&& read_field(data@.skip(pos as int), depth as nat) == Some(
                    (field.of(data@), next - pos),
                )
                &&& field.inside(data@.len() as int)
                &&& pos < next <= data@.len()
            },
            None => read_field(data@.skip(pos as int), depth as nat) is None,
        },
{
    let ghost rest = data@.skip(pos as int);
    match key_at(data, pos) {
        None => None,
        Some((num, wire, next)) => {
            assert(rest.skip(next - pos) =~= data@.skip(next as int));
            match value_end(data, next, wire, num, depth) {
                None => None,
                Some(end) => {
                    if wire == 0 {
                        match number_at(data, next, 0) {
                            Some((value, _)) => Some((RawField::Number { num, value }, end)),
                            None => None,
                        }
                    } else if wire == 2 {
                        match number_at(data, next, 0) {
                            Some((_, start)) => {
                                assert(data@.skip(next as int).subrange(start - next, end - next)
                                    =~= data@.subrange(start as int, end as int));
                                Some((RawField::Bytes { num, start, end }, end))
                            },
                            None => None,
                        }
                    } else {
                        Some((RawField::Other { num }, end))
                    }
                },
            }
        },
    }
}

/// A message: fields are merged into it one by one.
pub trait Message: View + Sized {
    /// The message without any field.
    spec fn blank() -> Self::V;

    /// The message with one more field, or `None` if the field does not fit. `depth` is how deep
    /// what is inside the field may nest.
    spec fn merged(m: Self::V, field: Field, depth: nat) -> Option<Self::V>;

    /// The message without any field.
    fn new_blank() -> (res: Self)
        ensures
            res@ == Self::blank(),
    ;

    /// Merges a field of the byte string `data`; tells whether it fits.
    fn merge_field(&mut self, data: &[u8], field: RawField, depth: u32) -> (fits: bool)
        requires
            field.inside(data@.len() as int),
            depth > 0,
        ensures
            match Self::merged(old(self)@, field.of(data@), depth as nat) {
                Some(m) => fits && final(self)@ == m,
                None => !fits,
            },
    ;
}

/// The message with all the fields of a byte string merged, or `None` if there is something in it
/// that is no field or does not fit.
pub open spec fn all_merged<M: Message>(m: M::V, data: Seq<u8>, depth: nat) -> Option<M::V>
    decreases data.len(),
{
    if data.len() == 0 {
        Some(m)
    } else {
        match read_field(data, depth) {
            None => None,
            Some((field, n)) => if !(0 < n <= data.len()) {
                None
            } else {
                match M::merged(m, field, depth) {
                    None => None,
                    Some(next) => all_merged::<M>(next, data.skip(n), depth),
                }
            },
        }
    }
}

/// What is inside a field merged into a part of a message, which may be there already.
pub open spec fn part_merged<M: Message>(part: Option<M::V>, bytes: Seq<u8>, depth: nat) -> Option<
    M::V,
> {
    if depth <= 1 {
        None
    } else {
        all_merged::<M>(
            match part {
                Some(m) => m,
                None => M::blank(),
            },
            bytes,
            (depth - 1) as nat,
        )
    }
}

/// Merges all the fields between two positions of a byte string; tells whether all fit.
pub fn merge_all<M: Message>(m: &mut M, data: &[u8], start: usize, end: usize, depth: u32) -> (fits:
    bool)
    requires
        start <= end <= data@.len(),
        depth > 0,
    ensures
        match all_merged::<M>(
            old(m)@,
            data@.subrange(start as int, end as int),
            depth as nat,
        ) {
            Some(v) => fits && final(m)@ == v,
            None => !fits,
        },
{
    let part = vstd::slice::slice_subrange(data, start, end);
    let mut pos: usize = 0;
    assert(part@.skip(0) =~= part@);
    while pos < part.len()
        invariant
            pos <= part@.len(),
            part@ == data@.subrange(start as int, end as int),
            depth > 0,
            all_merged::<M>(old(m)@, part@, depth as nat) == all_merged::<M>(
                m@,
                part@.skip(pos as int),
                depth as nat,
            ),
        decreases part@.len() - pos,
    {
        let ghost rest = part@.skip(pos as int);
        match field_at(part, pos, depth) {
            None => {
                return false;
            },
            Some((field, next)) => {
                if !m.merge_field(part, field, depth) {
                    return false;
                }
                assert(rest.skip(next - pos) =~= part@.skip(next as int));
                pos = next;
            },
        }
    }
    true
}

/// A field at the front that was written is merged, and what follows after it.
pub proof fn merge_written<M: Message>(m: M::V, field: Field, rest: Seq<u8>, depth: nat)
    requires
        writable(field),
        depth > 0,
    ensures
        all_merged::<M>(m, field_bytes(field) + rest, depth) == match M::merged(m, field, depth) {
            None => None,
            Some(next) => all_merged::<M>(next, rest, depth),
        },
{
    field_reads_back(field, rest, depth);
    let data = field_bytes(field) + rest;
    assert(data.skip(field_bytes(field).len() as int) =~= rest);
}

/// A number is read from groups of seven bits, the least significant one first, up to the first byte
/// without its top bit; a tenth byte may hold one bit, and more than ten bytes, or none without the
/// top bit, are no number.
pub proof fn groups_are_read(first: u8, rest: Seq<u8>, count: int)
    requires
        0 <= count,
    ensures
        read_varint(seq![], count) is None,
        count >= 10 ==> read_varint(seq![first] + rest, count) is None,
        count < 9 && first < 128 ==> read_varint(seq![first] + rest, count) == Some(
            (first as nat, 1int),
        ),
        count == 9 && first < 2 ==> read_varint(seq![first] + rest, count) == Some(
            (first as nat, 1int),
        ),
        count == 9 && 2 <= first < 128 ==> read_varint(seq![first] + rest, count) is None,
        count < 10 && first >= 128 ==> match read_varint(rest, count + 1) {
            Some((v, n)) => read_varint(seq![first] + rest, count) == Some(
                ((first - 128 + 128 * v) as nat, n + 1),
            ),
            None => read_varint(seq![first] + rest, count) is None,
        },
{
    assert((seq![first] + rest).drop_first() =~= rest);
}

/// Values of other kinds are skipped by their size: eight bytes, or four; a field with the number
/// zero, of an unknown kind, or with a number above thirty-two bits is refused.
pub proof fn other_values_are_skipped(data: Seq<u8>, num: nat, depth: nat)
    requires
        depth > 0,
    ensures
        data.len() >= 8 ==> value_len(data, 1, num, depth) == Some(8int),
        data.len() < 8 ==> value_len(data, 1, num, depth) is None,
        data.len() >= 4 ==> value_len(data, 5, num, depth) == Some(4int),
        data.len() < 4 ==> value_len(data, 5, num, depth) is None,
        value_len(data, 0, num, 0) is None,
        read_key(data) is Some ==> {
            let (field, kind, n) = read_key(data).unwrap();
            &&& read_varint(data, 0) == Some((8 * field + kind, n))
            &&& field >= 1 && kind <= 5 && 8 * field + kind <= 0xffff_ffff
        },
        read_varint(data, 0) is Some ==> {
            let (key, n) = read_varint(data, 0).unwrap();
            key >= 8 && key <= 0xffff_ffff && key % 8 <= 5 ==> read_key(data) == Some(
                (key / 8, key % 8, n),
            )
        },
{
}

/// Bytes are skipped by the length before them, if they are all there; a group up to its end, which
/// must have its number; and an end without a beginning is refused.
pub proof fn delimited_values_are_skipped(data: Seq<u8>, num: nat, depth: nat)
    requires
        depth > 0,
    ensures
        read_varint(data, 0) is None ==> value_len(data, 2, num, depth) is None,
        read_varint(data, 0) is Some ==> {
            let (len, n) = read_varint(data, 0).unwrap();
            &&& n + len <= data.len() ==> value_len(data, 2, num, depth) == Some(n + len)
            &&& n + len > data.len() ==> value_len(data, 2, num, depth) is None
        },
        value_len(data, 4, num, depth) is None,
        read_key(data) is None ==> value_len(data, 3, num, depth) is None,
        read_key(data) is Some && read_key(data).unwrap().1 == 4 && read_key(data).unwrap().0
            == num ==> value_len(data, 3, num, depth) == Some(read_key(data).unwrap().2),
        read_key(data) is Some && read_key(data).unwrap().1 == 4 && read_key(data).unwrap().0
            != num ==> value_len(data, 3, num, depth) is None,
{
    read_varint_range(data, 0);
    read_key_range(data);
}

} // verus!
