//! Payload hashing for cork identities.
//!
//! A cork identity carries a 64-bit digest of the encoded payload rather
//! than the payload itself.  The digest folds the bytes left to right,
//! mixing each into the accumulator by exclusive-or followed by a
//! multiplication with a fixed odd prime, taken modulo two to the 64th.
//! It is a pure function of the bytes, so equal payloads always hash
//! alike, which is what identity-based deduplication needs.

use vstd::prelude::*;

verus! {

/// The accumulator value the digest starts from.
pub const HASH_BASIS: u64 = 0xcbf2_9ce4_8422_2325;

/// The odd prime each step multiplies by, modulo two to the 64th.
pub const HASH_PRIME: u64 = 0x100_0000_01b3;

/// One folding step: mix byte `b` into accumulator `h`.
pub open spec fn hash_step(h: u64, b: u8) -> u64 {
    (((h ^ (b as u64)) as u128) * (HASH_PRIME as u128)) as u64
}

/// The digest of `bytes`, folding every byte from the left.
pub open spec fn payload_digest(bytes: Seq<u8>) -> u64
    decreases bytes.len(),
{
    if bytes.len() == 0 {
        HASH_BASIS
    } else {
        hash_step(payload_digest(bytes.drop_last()), bytes.last())
    }
}

/// Computes the 64-bit digest of `bytes`.
pub fn payload_hash(bytes: &Vec<u8>) -> (h: u64)
    ensures
        h == payload_digest(bytes@),
{
    let n = bytes.len();
    let mut h: u64 = HASH_BASIS;
    let mut i: usize = 0;
    while i < n
        invariant
            n == bytes@.len(),
            i <= n,
            h == payload_digest(bytes@.take(i as int)),
        decreases n - i,
    {
        let x: u64 = h ^ (bytes[i] as u64);
        h = #[verifier::truncate] (((x as u128) * (HASH_PRIME as u128)) as u64);
        proof {
            let taken = bytes@.take(i + 1);
            assert(taken.drop_last() =~= bytes@.take(i as int));
            assert(taken.last() == bytes@[i as int]);
        }
        i = i + 1;
    }
    proof {
        assert(bytes@.take(n as int) =~= bytes@);
    }
    h
}

} // verus!
