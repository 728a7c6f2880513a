//! Random numbers.

use crate::bytes;
use vstd::prelude::*;

verus! {

/// The system's source of random bytes did not answer.
#[derive(Debug, Clone, Copy, PartialEq, Eq, Structural)]
pub struct RandomError;

/// `getrandom::getrandom` on `n` bytes. Of the bytes nothing is known but their number. The source is
/// not asked for no bytes at all, so that succeeds; whether it answers otherwise is not known.
#[verifier::external_body]
pub(crate) fn random_bytes(n: usize) -> (res: Result<Vec<u8>, RandomError>)
    ensures
        res matches Ok(bytes) ==> bytes@.len() == n,
        n == 0 ==> res is Ok,
{
    let mut bytes = vec![0u8; n];
    match getrandom::getrandom(&mut bytes) {
        Ok(()) => Ok(bytes),
        Err(_) => Err(RandomError),
    }
}

/// Puts bytes into a buffer of the same length.
pub fn put(dest: &mut [u8], bytes: &Vec<u8>)
    requires
        old(dest)@.len() == bytes@.len(),
    ensures
        final(dest)@ == bytes@,
{
    let mut i: usize = 0;
    while i < dest.len()
        invariant
            dest@.len() == bytes@.len(),
            i <= dest@.len(),
            forall|k: int| 0 <= k < i ==> dest@[k] == bytes@[k],
        decreases dest@.len() - i,
    {
        dest[i] = bytes[i];
        i = i + 1;
    }
    assert(dest@ =~= bytes@);
}

/// Whether a number is what bytes denote in the order of some machine: the least significant byte
/// first, or the most significant one.
pub open spec fn in_some_order(v: nat, random: Seq<u8>) -> bool {
    v == bytes::be_value(random) || v == bytes::be_value(random.reverse())
}

/// `u32::from_ne_bytes`: the number that the bytes denote in the order of the machine, which is one of
/// the two orders. Which one it is is not said.
#[verifier::external_body]
fn native_u32(random: [u8; 4]) -> (v: u32)
    ensures
        in_some_order(v as nat, random@),
{
    u32::from_ne_bytes(random)
}

/// `u64::from_ne_bytes`: the number that the bytes denote in the order of the machine, which is one of
/// the two orders. Which one it is is not said.
#[verifier::external_body]
fn native_u64(random: [u8; 8]) -> (v: u64)
    ensures
        in_some_order(v as nat, random@),
{
    u64::from_ne_bytes(random)
}

/// Puts what the source answered into a buffer, which stays as it is if the source did not answer.
pub fn fill_from(dest: &mut [u8], answer: Result<Vec<u8>, RandomError>) -> (res: Result<
    (),
    RandomError,
>)
    requires
        answer matches Ok(bytes) ==> bytes@.len() == old(dest)@.len(),
    ensures
        match answer {
            Ok(bytes) => res is Ok && final(dest)@ == bytes@,
            Err(e) => res == Err::<(), RandomError>(e) && final(dest)@ == old(dest)@,
        },
{
    match answer {
        Ok(bytes) => {
            put(dest, &bytes);
            Ok(())
        },
        Err(e) => Err(e),
    }
}

/// The 8-bit number in what the source answered.
pub fn u8_from(answer: Result<Vec<u8>, RandomError>) -> (res: Result<u8, RandomError>)
    requires
        answer matches Ok(bytes) ==> bytes@.len() == 1,
    ensures
        match answer {
            Ok(bytes) => res == Ok::<u8, RandomError>(bytes@[0]),
            Err(e) => res == Err::<u8, RandomError>(e),
        },
{
    match answer {
        Ok(random) => Ok(random[0]),
        Err(e) => Err(e),
    }
}

/// The 32-bit number in what the source answered, in the order of the machine.
pub fn u32_from(answer: Result<Vec<u8>, RandomError>) -> (res: Result<u32, RandomError>)
    requires
        answer matches Ok(bytes) ==> bytes@.len() == 4,
    ensures
        match answer {
            Ok(bytes) => res matches Ok(v) && in_some_order(v as nat, bytes@),
            Err(e) => res == Err::<u32, RandomError>(e),
        },
{
    match answer {
        Ok(random) => {
            let mut buf: [u8; 4] = [0u8;4];
            put(&mut buf, &random);
            Ok(native_u32(buf))
        },
        Err(e) => Err(e),
    }
}

/// The 64-bit number in what the source answered, in the order of the machine.
pub fn u64_from(answer: Result<Vec<u8>, RandomError>) -> (res: Result<u64, RandomError>)
    requires
        answer matches Ok(bytes) ==> bytes@.len() == 8,
    ensures
        match answer {
            Ok(bytes) => res matches Ok(v) && in_some_order(v as nat, bytes@),
            Err(e) => res == Err::<u64, RandomError>(e),
        },
{
    match answer {
        Ok(random) => {
            let mut buf: [u8; 8] = [0u8;8];
            put(&mut buf, &random);
            Ok(native_u64(buf))
        },
        Err(e) => Err(e),
    }
}

/// Cryptographically secure random numbers from the system's source.
pub struct Prng;

impl Prng {
    /// Fills a buffer with random bytes; it stays as it is if the source does not answer. An empty
    /// one is always filled.
    pub fn fill(dest: &mut [u8]) -> (res: Result<(), RandomError>)
        ensures
            final(dest)@.len() == old(dest)@.len(),
            res is Err ==> final(dest)@ == old(dest)@,
            old(dest)@.len() == 0 ==> res is Ok,
    {
        let answer = random_bytes(dest.len());
        fill_from(dest, answer)
    }

    /// A random 8-bit number: one random byte.
    pub fn u8(&mut self) -> (res: Result<u8, RandomError>)
        ensures
            *final(self) == *old(self),
            res matches Ok(v) ==> exists|b: Seq<u8>|
                #[trigger] b.len() == 1 && v == b[0],
    {
        u8_from(random_bytes(1))
    }

    /// A random 32-bit number: four random bytes.
    pub fn u32(&mut self) -> (res: Result<u32, RandomError>)
        ensures
            *final(self) == *old(self),
            res matches Ok(v) ==> exists|b: Seq<u8>|
                b.len() == 4 && #[trigger] in_some_order(v as nat, b),
    {
        u32_from(random_bytes(4))
    }

    /// A random 64-bit number: eight random bytes.
    pub fn u64(&mut self) -> (res: Result<u64, RandomError>)
        ensures
            *final(self) == *old(self),
            res matches Ok(v) ==> exists|b: Seq<u8>|
                b.len() == 8 && #[trigger] in_some_order(v as nat, b),
    {
        u64_from(random_bytes(8))
    }
}

} // verus!
