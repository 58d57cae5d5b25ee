//! Lexicographic order of byte strings (the order of `String` and `str`),
//! and ASCII case folding.

use vstd::prelude::*;

verus! {

/// `a` sorts before `b` when both are compared from byte `i` on.
pub open spec fn lt_from(a: Seq<u8>, b: Seq<u8>, i: int) -> bool
    decreases a.len() - i,
{
    if i < 0 {
        false
    } else if i >= a.len() {
        i < b.len()
    } else if i >= b.len() {
        false
    } else if a[i] != b[i] {
        a[i] < b[i]
    } else {
        lt_from(a, b, i + 1)
    }
}

/// `a` sorts before `b` in lexicographic byte order.
pub open spec fn bytes_lt(a: Seq<u8>, b: Seq<u8>) -> bool {
    lt_from(a, b, 0)
}

proof fn lemma_lt_from_irreflexive(a: Seq<u8>, i: int)
    requires
        0 <= i,
    ensures
        !lt_from(a, a, i),
    decreases a.len() - i,
{
    if i < a.len() {
        lemma_lt_from_irreflexive(a, i + 1);
    }
}

proof fn lemma_lt_from_transitive(a: Seq<u8>, b: Seq<u8>, c: Seq<u8>, i: int)
    requires
        lt_from(a, b, i),
        lt_from(b, c, i),
    ensures
        lt_from(a, c, i),
    decreases a.len() - i,
{
    if 0 <= i < a.len() && i < b.len() && i < c.len() && a[i] == b[i] && b[i] == c[i] {
        lemma_lt_from_transitive(a, b, c, i + 1);
    }
}

proof fn lemma_lt_from_total(a: Seq<u8>, b: Seq<u8>, i: int)
    requires
        0 <= i <= a.len(),
        i <= b.len(),
        a.subrange(0, i) == b.subrange(0, i),
    ensures
        a == b || lt_from(a, b, i) || lt_from(b, a, i),
    decreases a.len() - i,
{
    if i < a.len() && i < b.len() && a[i] == b[i] {
        assert(a.subrange(0, i + 1) =~= a.subrange(0, i).push(a[i]));
        assert(b.subrange(0, i + 1) =~= b.subrange(0, i).push(b[i]));
        lemma_lt_from_total(a, b, i + 1);
    } else if i == a.len() && i == b.len() {
        assert(a =~= a.subrange(0, i));
        assert(b =~= b.subrange(0, i));
    }
}

/// No byte string sorts before itself.
pub proof fn lemma_bytes_lt_irreflexive(a: Seq<u8>)
    ensures
        !bytes_lt(a, a),
{
    lemma_lt_from_irreflexive(a, 0);
}

/// The byte order is transitive.
pub proof fn lemma_bytes_lt_transitive(a: Seq<u8>, b: Seq<u8>, c: Seq<u8>)
    requires
        bytes_lt(a, b),
        bytes_lt(b, c),
    ensures
        bytes_lt(a, c),
{
    lemma_lt_from_transitive(a, b, c, 0);
}

/// Of two different byte strings, one sorts before the other.
pub proof fn lemma_bytes_lt_total(a: Seq<u8>, b: Seq<u8>)
    ensures
        a == b || bytes_lt(a, b) || bytes_lt(b, a),
{
    assert(a.subrange(0, 0) =~= b.subrange(0, 0));
    lemma_lt_from_total(a, b, 0);
}

/// The byte order is asymmetric.
pub proof fn lemma_bytes_lt_asymmetric(a: Seq<u8>, b: Seq<u8>)
    requires
        bytes_lt(a, b),
    ensures
        !bytes_lt(b, a),
{
    if bytes_lt(b, a) {
        lemma_bytes_lt_transitive(a, b, a);
        lemma_bytes_lt_irreflexive(a);
    }
}

/// `a` sorts before `b` in lexicographic byte order.
pub fn bytes_less(a: &[u8], b: &[u8]) -> (r: bool)
    ensures
        r == bytes_lt(a@, b@),
{
    let mut i: usize = 0;
    while i < a.len() && i < b.len() && a[i] == b[i]
        invariant
            i <= a@.len(),
            i <= b@.len(),
            lt_from(a@, b@, 0) == lt_from(a@, b@, i as int),
        decreases a@.len() - i,
    {
        i = i + 1;
    }
    if i >= a.len() {
        i < b.len()
    } else if i >= b.len() {
        false
    } else {
        a[i] < b[i]
    }
}

/// The byte with ASCII upper-case letters mapped to lower case.
pub open spec fn ascii_lower(x: u8) -> u8 {
    if 65 <= x <= 90 {
        (x + 32) as u8
    } else {
        x
    }
}

/// The bytes with ASCII upper-case letters mapped to lower case (what
/// `to_ascii_lowercase` does to the UTF-8 bytes of a text).
pub open spec fn lower_bytes(s: Seq<u8>) -> Seq<u8> {
    s.map_values(|x: u8| ascii_lower(x))
}

fn ascii_lower_exec(x: u8) -> (r: u8)
    ensures
        r == ascii_lower(x),
{
    if 65 <= x && x <= 90 {
        x + 32
    } else {
        x
    }
}

/// The texts are equal when ASCII letters are compared without case (what
/// `str::eq_ignore_ascii_case` computes).
pub fn eq_ignore_ascii_case(a: &[u8], b: &[u8]) -> (r: bool)
    ensures
        r == (lower_bytes(a@) == lower_bytes(b@)),
{
    if a.len() != b.len() {
        assert(lower_bytes(a@).len() != lower_bytes(b@).len());
        return false;
    }
    let mut i: usize = 0;
    while i < a.len()
        invariant
            i <= a@.len(),
            a@.len() == b@.len(),
            forall|k: int| 0 <= k < i ==> ascii_lower(#[trigger] a@[k]) == ascii_lower(b@[k]),
        decreases a@.len() - i,
    {
        if ascii_lower_exec(a[i]) != ascii_lower_exec(b[i]) {
            assert(lower_bytes(a@)[i as int] != lower_bytes(b@)[i as int]);
            return false;
        }
        i = i + 1;
    }
    assert(lower_bytes(a@) =~= lower_bytes(b@));
    true
}

/// The ASCII-lower-cased texts compare `a` before `b`.
pub fn lowercase_less(a: &[u8], b: &[u8]) -> (r: bool)
    ensures
        r == bytes_lt(lower_bytes(a@), lower_bytes(b@)),
{
    let ghost la = lower_bytes(a@);
    let ghost lb = lower_bytes(b@);
    let mut i: usize = 0;
    while i < a.len() && i < b.len() && ascii_lower_exec(a[i]) == ascii_lower_exec(b[i])
        invariant
            i <= a@.len(),
            i <= b@.len(),
            la == lower_bytes(a@),
            lb == lower_bytes(b@),
            lt_from(la, lb, 0) == lt_from(la, lb, i as int),
        decreases a@.len() - i,
    {
        assert(la[i as int] == lb[i as int]);
        i = i + 1;
    }
    if i >= a.len() {
        i < b.len()
    } else if i >= b.len() {
        false
    } else {
        ascii_lower_exec(a[i]) < ascii_lower_exec(b[i])
    }
}

} // verus!
