//! The message that tells the dimensions of a terminal.

use crate::proto::transport;
use crate::proto::transport::push_opt_number;
use crate::proto::wire;
use crate::proto::wire::Field;
use crate::proto::wire::Message;
use crate::proto::wire::RawField;
use vstd::prelude::*;

verus! {

/// The dimensions of a terminal.
#[derive(Debug, Clone, Copy, PartialEq, Eq, Structural)]
pub struct ResizeMessage {
    pub width: Option<i32>,
    pub height: Option<i32>,
}

impl View for ResizeMessage {
    type V = ResizeMessage;

    open spec fn view(&self) -> ResizeMessage {
        *self
    }
}

/// A signed number on the wire: a negative one counts down from the top of the 64-bit range.
pub open spec fn signed_to_wire(v: i32) -> u64 {
    if v >= 0 {
        v as u64
    } else {
        (0x1_0000_0000_0000_0000 + v) as u64
    }
}

/// The signed number that the low 32 bits of a number on the wire denote.
pub open spec fn signed_from_wire(v: u64) -> i32 {
    let low = v % 0x1_0000_0000;
    if low < 0x8000_0000 {
        low as i32
    } else {
        (low - 0x1_0000_0000) as i32
    }
}

/// Reading a signed number that was written gives it back.
pub proof fn signed_roundtrip(v: i32)
    ensures
        signed_from_wire(signed_to_wire(v)) == v,
{
}

/// An optional signed number as it is written.
pub open spec fn opt_to_wire(v: Option<i32>) -> Option<u64> {
    match v {
        Some(v) => Some(signed_to_wire(v)),
        None => None,
    }
}

/// The dimensions on the wire.
pub open spec fn resize_bytes(m: ResizeMessage) -> Seq<u8> {
    transport::opt_number(5, opt_to_wire(m.width)) + transport::opt_number(
        6,
        opt_to_wire(m.height),
    )
}

/// The optional signed number as it is written.
fn to_wire(v: Option<i32>) -> (res: Option<u64>)
    ensures
        res == opt_to_wire(v),
{
    match v {
        Some(v) => if v >= 0 {
            Some(v as u64)
        } else {
            let below: u64 = (-(v as i64)) as u64;
            Some(u64::MAX - below + 1)
        },
        None => None,
    }
}

/// The signed number that was read.
fn from_wire(v: u64) -> (res: i32)
    ensures
        res == signed_from_wire(v),
{
    let low: i64 = (v % 0x1_0000_0000) as i64;
    if low < 0x8000_0000 {
        low as i32
    } else {
        (low - 0x1_0000_0000) as i32
    }
}

impl Message for ResizeMessage {
    open spec fn blank() -> ResizeMessage {
        ResizeMessage { width: None, height: None }
    }

    open spec fn merged(m: ResizeMessage, field: Field, depth: nat) -> Option<ResizeMessage> {
        match field {
            Field::Number { num, value } => if num == 5 {
                Some(ResizeMessage { width: Some(signed_from_wire(value)), ..m })
            } else if num == 6 {
                Some(ResizeMessage { height: Some(signed_from_wire(value)), ..m })
            } else {
                Some(m)
            },
            Field::Bytes { num, .. } => if num == 5 || num == 6 {
                None
            } else {
                Some(m)
            },
            Field::Other { num } => if num == 5 || num == 6 {
                None
            } else {
                Some(m)
            },
        }
    }

    fn new_blank() -> (res: Self) {
        ResizeMessage { width: None, height: None }
    }

    fn merge_field(&mut self, data: &[u8], field: RawField, depth: u32) -> (fits: bool) {
        match field {
            RawField::Number { num, value } => {
                if num == 5 {
                    self.width = Some(from_wire(value));
                } else if num == 6 {
                    self.height = Some(from_wire(value));
                }
                true
            },
            RawField::Bytes { num, .. } => num != 5 && num != 6,
            RawField::Other { num } => num != 5 && num != 6,
        }
    }
}

impl ResizeMessage {
    /// The dimensions on the wire.
    pub fn encode(&self) -> (res: Vec<u8>)
        ensures
            res@ == resize_bytes(*self),
    {
        let mut out: Vec<u8> = Vec::new();
        push_opt_number(&mut out, 5, to_wire(self.width));
        push_opt_number(&mut out, 6, to_wire(self.height));
        assert(out@ =~= resize_bytes(*self));
        out
    }
}

/// Reading dimensions that were written gives them back.
pub proof fn resize_roundtrip(m: ResizeMessage, depth: nat)
    requires
        depth > 0,
    ensures
        wire::all_merged::<ResizeMessage>(ResizeMessage::blank(), resize_bytes(m), depth) == Some(
            m,
        ),
{
    if let Some(w) = m.width {
        signed_roundtrip(w);
    }
    if let Some(h) = m.height {
        signed_roundtrip(h);
    }
    let second = transport::opt_number(6, opt_to_wire(m.height));
    let m1 = ResizeMessage { width: m.width, height: None };
    transport::merge_opt_number::<ResizeMessage>(
        ResizeMessage::blank(),
        5,
        opt_to_wire(m.width),
        second,
        depth,
    );
    assert(second + Seq::<u8>::empty() =~= second);
    transport::merge_opt_number::<ResizeMessage>(
        m1,
        6,
        opt_to_wire(m.height),
        Seq::empty(),
        depth,
    );
}

} // verus!
