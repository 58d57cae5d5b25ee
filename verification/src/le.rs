//! Little-endian integer fields inside byte buffers.

use vstd::prelude::*;

verus! {

/// The unsigned value of a little-endian byte sequence.
pub open spec fn le_value(s: Seq<u8>) -> nat
    decreases s.len(),
{
    if s.len() == 0 {
        0
    } else {
        s[0] as nat + 256 * le_value(s.drop_first())
    }
}

/// The `n` low-order bytes of `v`, least significant first.
pub open spec fn le_bytes(v: nat, n: nat) -> Seq<u8>
    decreases n,
{
    if n == 0 {
        Seq::empty()
    } else {
        seq![(v % 256) as u8] + le_bytes(v / 256, (n - 1) as nat)
    }
}

/// `256` to the power `n`.
pub open spec fn byte_pow(n: nat) -> nat
    decreases n,
{
    if n == 0 {
        1
    } else {
        256 * byte_pow((n - 1) as nat)
    }
}

pub proof fn lemma_le_bytes_len(v: nat, n: nat)
    ensures
        le_bytes(v, n).len() == n,
    decreases n,
{
    if n > 0 {
        lemma_le_bytes_len(v / 256, (n - 1) as nat);
    }
}

pub proof fn lemma_le_value_bound(s: Seq<u8>)
    ensures
        le_value(s) < byte_pow(s.len()),
    decreases s.len(),
{
    if s.len() > 0 {
        lemma_le_value_bound(s.drop_first());
    }
}

/// Reading back the bytes of a value gives the value, when it fits.
pub proof fn lemma_le_roundtrip(v: nat, n: nat)
    requires
        v < byte_pow(n),
    ensures
        le_value(le_bytes(v, n)) == v,
    decreases n,
{
    if n > 0 {
        lemma_le_roundtrip(v / 256, (n - 1) as nat);
        lemma_le_bytes_len(v / 256, (n - 1) as nat);
        let s = le_bytes(v, n);
        assert(s.drop_first() =~= le_bytes(v / 256, (n - 1) as nat));
    }
}

/// Writing the value of a byte sequence gives the sequence back.
pub proof fn lemma_le_bytes_of_value(s: Seq<u8>)
    ensures
        le_bytes(le_value(s), s.len()) == s,
    decreases s.len(),
{
    if s.len() > 0 {
        lemma_le_bytes_of_value(s.drop_first());
        let v = le_value(s);
        assert(v % 256 == s[0] as nat);
        assert(v / 256 == le_value(s.drop_first()));
        assert(le_bytes(v, s.len()) =~= seq![s[0]] + s.drop_first());
    }
}

pub proof fn lemma_byte_pows()
    ensures
        byte_pow(2) == 0x1_0000,
        byte_pow(4) == 0x1_0000_0000,
        byte_pow(8) == 0x1_0000_0000_0000_0000,
{
    reveal_with_fuel(byte_pow, 9);
}

/// Appends the `n` low-order bytes of `v` to `out`, least significant first.
pub fn push_le(out: &mut Vec<u8>, v: u64, n: usize)
    requires
        n <= 8,
    ensures
        final(out)@ == old(out)@ + le_bytes(v as nat, n as nat),
{
    let mut x = v;
    let mut i: usize = 0;
    while i < n
        invariant
            i <= n,
            old(out)@ + le_bytes(v as nat, n as nat) == out@ + le_bytes(x as nat, (n - i) as nat),
        decreases n - i,
    {
        let ghost before = out@;
        let ghost rest = le_bytes((x / 256) as nat, (n - i - 1) as nat);
        assert(le_bytes(x as nat, (n - i) as nat) == seq![(x % 256) as u8] + rest);
        out.push((x % 256) as u8);
        assert(before + (seq![(x % 256) as u8] + rest) =~= out@ + rest);
        x = x / 256;
        i = i + 1;
    }
    assert(out@ + le_bytes(x as nat, 0) =~= out@);
}

/// Reads `n` little-endian bytes of `bytes` starting at `start`.
pub fn read_le(bytes: &[u8], start: usize, n: usize) -> (value: u64)
    requires
        n <= 8,
        start + n <= bytes@.len(),
    ensures
        value as nat == le_value(bytes@.subrange(start as int, start + n)),
{
    let ghost s = bytes@.subrange(start as int, start + n);
    proof {
        lemma_byte_pows();
        lemma_byte_pow_monotone(n as nat, 8);
    }
    let total: usize = bytes.len();
    assert(start + n <= total);
    let mut acc: u64 = 0;
    let mut i: usize = n;
    assert(s.subrange(n as int, n as int) =~= Seq::<u8>::empty());
    while i > 0
        invariant
            i <= n,
            n <= 8,
            start + n <= bytes@.len(),
            start + n <= total,
            s == bytes@.subrange(start as int, start + n),
            byte_pow(n as nat) <= byte_pow(8),
            byte_pow(8) == 0x1_0000_0000_0000_0000,
            acc as nat == le_value(s.subrange(i as int, n as int)),
            acc < byte_pow((n - i) as nat),
        decreases i,
    {
        i = i - 1;
        let ghost tail = s.subrange(i + 1, n as int);
        assert(s.subrange(i as int, n as int).drop_first() =~= tail);
        proof {
            lemma_byte_pow_monotone((n - i) as nat, n as nat);
        }
        acc = acc * 256 + bytes[start + i] as u64;
    }
    assert(s.subrange(0, n as int) =~= s);
    acc
}

pub proof fn lemma_byte_pow_monotone(a: nat, b: nat)
    requires
        a <= b,
    ensures
        byte_pow(a) <= byte_pow(b),
    decreases b,
{
    if a < b {
        lemma_byte_pow_monotone(a, (b - 1) as nat);
    }
}

} // verus!
