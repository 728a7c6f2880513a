//! Keys, nonces and authenticated encryption.

use vstd::prelude::*;

pub mod base64_key;
pub mod nonce;
pub mod prng;
pub mod session;

verus! {

/// The next number of a counter for nonces: every call gives a number that no earlier call gave.
pub fn unique(counter: &mut u64) -> (res: u64)
    requires
        *old(counter) < u64::MAX,
    ensures
        res == *old(counter),
        *final(counter) == *old(counter) + 1,
{
    let val: u64 = *counter;
    *counter = val + 1;
    val
}

} // verus!
