//! 64-bit FNV-1a hashing, the checksum that IPSMAP lookups carry.

use vstd::prelude::*;

verus! {

/// The FNV-1a 64-bit offset basis.
pub const FNV_OFFSET: u64 = 0xcbf2_9ce4_8422_2325;

/// The FNV-1a 64-bit prime.
pub const FNV_PRIME: u64 = 0x0000_0100_0000_01b3;

/// One FNV-1a round: xor in the byte, then multiply by the prime modulo 2^64.
pub open spec fn fnv_step(hash: u64, byte: u8) -> u64 {
    (hash ^ (byte as u64)).wrapping_mul(FNV_PRIME)
}

/// FNV-1a rounds over every byte of `s`, in order, starting from `hash`.
pub open spec fn fnv_fold(hash: u64, s: Seq<u8>) -> u64
    decreases s.len(),
{
    if s.len() == 0 {
        hash
    } else {
        fnv_step(fnv_fold(hash, s.drop_last()), s.last())
    }
}

/// Hashing a concatenation is hashing the second part from the state the first left.
pub proof fn lemma_fnv_fold_concat(hash: u64, a: Seq<u8>, b: Seq<u8>)
    ensures
        fnv_fold(hash, a + b) == fnv_fold(fnv_fold(hash, a), b),
    decreases b.len(),
{
    if b.len() > 0 {
        lemma_fnv_fold_concat(hash, a, b.drop_last());
        assert((a + b).drop_last() =~= a + b.drop_last());
    } else {
        assert(a + b =~= a);
    }
}

/// Mixes one byte into an FNV-1a hash state.
pub fn feed_hash(hash: &mut u64, byte: u8)
    ensures
        *final(hash) == fnv_step(*old(hash), byte),
{
    *hash = *hash ^ (byte as u64);
    *hash = hash.wrapping_mul(FNV_PRIME);
}

/// Mixes every byte of `bytes`, in order, into an FNV-1a hash state.
pub fn feed_hash_bytes(hash: &mut u64, bytes: &[u8])
    ensures
        *final(hash) == fnv_fold(*old(hash), bytes@),
{
    let ghost start = *hash;
    let n = bytes.len();
    let mut i: usize = 0;
    assert(bytes@.take(0) =~= Seq::<u8>::empty());
    while i < n
        invariant
            i <= n,
            n == bytes@.len(),
            *hash == fnv_fold(start, bytes@.take(i as int)),
        decreases n - i,
    {
        assert(bytes@.take(i + 1).drop_last() =~= bytes@.take(i as int));
        feed_hash(hash, bytes[i]);
        i = i + 1;
    }
    assert(bytes@.take(n as int) =~= bytes@);
}

} // verus!
