//! Nonces for authenticated encryption.

use crate::bytes;
use vstd::prelude::*;

verus! {

/// 12-byte nonce for AES-128-OCB3.
///
/// A 64-bit value is encoded in 12 bytes: four zeros, then the value with its most significant byte
/// first. The value packs a direction bit (bit 63) with a sequence number.
#[derive(Clone, Copy, Debug)]
pub struct Nonce {
    bytes: [u8; 12],
}

/// The bytes of the nonce with a value.
pub open spec fn nonce_bytes(val: u64) -> Seq<u8> {
    seq![0u8, 0u8, 0u8, 0u8] + bytes::be_bytes(val as nat, 8)
}

impl View for Nonce {
    type V = Seq<u8>;

    closed spec fn view(&self) -> Seq<u8> {
        self.bytes@
    }
}

/// The value of a nonce gives its last eight bytes, and they give it back.
pub proof fn nonce_roundtrip(val: u64)
    ensures
        nonce_bytes(val).len() == 12,
        bytes::be_value(nonce_bytes(val).skip(4)) == val,
{
    bytes::pow256_values();
    bytes::be_value_of_bytes(val as nat, 8);
    assert(nonce_bytes(val).skip(4) =~= bytes::be_bytes(val as nat, 8));
}

/// Different values have different nonces.
pub proof fn nonce_injective(a: u64, b: u64)
    requires
        nonce_bytes(a) == nonce_bytes(b),
    ensures
        a == b,
{
    nonce_roundtrip(a);
    nonce_roundtrip(b);
}

impl Nonce {
    /// The number of bytes of a nonce.
    pub const LEN: usize = 12;

    /// A nonce has 12 bytes.
    pub proof fn has_len(&self)
        ensures
            self@.len() == 12,
    {
    }

    /// A nonce from a 64-bit value (direction and sequence number).
    pub fn from_val(val: u64) -> (res: Self)
        ensures
            res@ == nonce_bytes(val),
    {
        let mut be: Vec<u8> = Vec::new();
        bytes::push_be(&mut be, val, 8);
        assert(be@ =~= bytes::be_bytes(val as nat, 8));
        proof {
            bytes::be_bytes_len(val as nat, 8);
        }
        Self::from_bytes(be.as_slice())
    }

    /// A nonce from the 8-byte wire representation.
    pub fn from_bytes(s_bytes: &[u8]) -> (res: Self)
        requires
            s_bytes@.len() == 8,
        ensures
            res@ == seq![0u8, 0u8, 0u8, 0u8] + s_bytes@,
    {
        let mut bytes: [u8; 12] = [0u8;12];
        let mut i: usize = 0;
        while i < 8
            invariant
                i <= 8,
                s_bytes@.len() == 8,
                forall|k: int| 0 <= k < 4 ==> bytes@[k] == 0,
                forall|k: int| 4 <= k < 4 + i ==> #[trigger] bytes@[k] == s_bytes@[k - 4],
            decreases 8 - i,
        {
            bytes[4 + i] = s_bytes[i];
            i = i + 1;
        }
        assert(bytes@ =~= seq![0u8, 0u8, 0u8, 0u8] + s_bytes@);
        Nonce { bytes }
    }

    /// A nonce from a full 12-byte value.
    pub fn from_raw(bytes: [u8; 12]) -> (res: Self)
        ensures
            res@ == bytes@,
    {
        Nonce { bytes }
    }

    /// The 8-byte wire representation (the last 8 bytes of the nonce).
    pub fn cc_str(&self) -> (res: [u8; 8])
        ensures
            res@ == self@.skip(4),
    {
        let mut out: [u8; 8] = [0u8;8];
        let mut i: usize = 0;
        while i < 8
            invariant
                i <= 8,
                forall|k: int| 0 <= k < i ==> #[trigger] out@[k] == self.bytes@[k + 4],
            decreases 8 - i,
        {
            out[i] = self.bytes[4 + i];
            i = i + 1;
        }
        assert(out@ =~= self@.skip(4));
        out
    }

    /// The full 12-byte nonce data.
    pub fn data(&self) -> (res: &[u8; 12])
        ensures
            res@ == self@,
    {
        &self.bytes
    }

    /// The 64-bit value.
    pub fn val(&self) -> (res: u64)
        ensures
            res == bytes::be_value(self@.skip(4)),
    {
        assert(self.bytes@.subrange(4, 12) =~= self@.skip(4));
        bytes::read_be(self.bytes.as_slice(), 4, 8)
    }

    /// Whether two nonces have the same bytes.
    pub fn same(&self, other: &Nonce) -> (res: bool)
        ensures
            res == (self@ == other@),
    {
        let mut i: usize = 0;
        while i < 12
            invariant
                i <= 12,
                forall|k: int| 0 <= k < i ==> self.bytes@[k] == other.bytes@[k],
            decreases 12 - i,
        {
            if self.bytes[i] != other.bytes[i] {
                assert(self@[i as int] != other@[i as int]);
                return false;
            }
            i = i + 1;
        }
        assert(self@ =~= other@);
        true
    }
}

impl PartialEq for Nonce {
    fn eq(&self, other: &Nonce) -> (res: bool) {
        self.same(other)
    }
}

impl vstd::std_specs::cmp::PartialEqSpecImpl for Nonce {
    open spec fn obeys_eq_spec() -> bool {
        true
    }

    open spec fn eq_spec(&self, other: &Nonce) -> bool {
        self@ == other@
    }
}

impl Eq for Nonce {

}

/// A nonce is four zero bytes and its value, the most significant byte first.
pub proof fn nonce_layout(val: u64)
    ensures
        nonce_bytes(val).len() == 12,
        nonce_bytes(val)[0] == 0 && nonce_bytes(val)[1] == 0,
        nonce_bytes(val)[2] == 0 && nonce_bytes(val)[3] == 0,
        nonce_bytes(val)[11] == val % 256,
        nonce_bytes(val)[10] == val / 256 % 256,
{
    bytes::be_bytes_len(val as nat, 8);
    reveal_with_fuel(bytes::be_bytes, 3);
    let be = bytes::be_bytes(val as nat, 8);
    bytes::be_bytes_len(val as nat / 256, 7);
    bytes::be_bytes_len(val as nat / 256 / 256, 6);
    assert(be[7] == val % 256);
    assert(be[6] == val / 256 % 256);
}

} // verus!
