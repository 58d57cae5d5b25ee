//! Byte-level text helpers: equality, decimal numbers and hex digits.
//!
//! Text is examined through its UTF-8 bytes (`str::as_bytes`). Every byte the
//! helpers look for is ASCII, and in UTF-8 an ASCII byte only ever stands for
//! that ASCII character, so a byte-level reading agrees with a character-level
//! one.

use vstd::prelude::*;
use vstd::string::StringExecFns;
use vstd::utf8::encode_utf8_decode_utf8;

verus! {

/// The byte is an ASCII decimal digit.
pub open spec fn is_digit(b: u8) -> bool {
    48 <= b <= 57
}

/// The value of a string of ASCII decimal digits.
pub open spec fn decimal_value(s: Seq<u8>) -> nat
    decreases s.len(),
{
    if s.len() == 0 {
        0
    } else {
        decimal_value(s.drop_last()) * 10 + (s.last() - 48) as nat
    }
}

/// All bytes are ASCII decimal digits.
pub open spec fn all_digits(s: Seq<u8>) -> bool {
    forall|i: int| 0 <= i < s.len() ==> is_digit(#[trigger] s[i])
}

/// What `u32::from_str` accepts, on the UTF-8 bytes of the text: an optional
/// `+` followed by at least one decimal digit, with a value that fits in `u32`.
pub open spec fn spec_parse_u32(s: Seq<u8>) -> Option<u32> {
    let digits = if s.len() > 1 && s[0] == 43 {
        s.drop_first()
    } else {
        s
    };
    if digits.len() == 0 || !all_digits(digits) || decimal_value(digits) > u32::MAX {
        None
    } else {
        Some(decimal_value(digits) as u32)
    }
}

proof fn lemma_decimal_value_prefix(s: Seq<u8>, k: int)
    requires
        0 <= k <= s.len(),
        all_digits(s),
    ensures
        decimal_value(s.take(k)) <= decimal_value(s),
    decreases s.len() - k,
{
    if k < s.len() {
        lemma_decimal_value_prefix(s, k + 1);
        assert(s.take(k + 1).drop_last() =~= s.take(k));
    } else {
        assert(s.take(k) =~= s);
    }
}

/// Parses decimal text the way `u32::from_str` does.
pub fn parse_u32(s: &[u8]) -> (r: Option<u32>)
    ensures
        r == spec_parse_u32(s@),
{
    let n = s.len();
    let start: usize = if n > 1 && s[0] == 43 {
        1
    } else {
        0
    };
    let ghost digits = if s@.len() > 1 && s@[0] == 43 {
        s@.drop_first()
    } else {
        s@
    };
    assert(digits =~= s@.subrange(start as int, n as int));
    if start == n {
        return None;
    }
    let mut acc: u64 = 0;
    let mut i: usize = start;
    assert(digits.take(0) =~= Seq::<u8>::empty());
    while i < n
        invariant
            start <= i <= n,
            n == s@.len(),
            digits == s@.subrange(start as int, n as int),
            digits == (if s@.len() > 1 && s@[0] == 43 {
                s@.drop_first()
            } else {
                s@
            }),
            all_digits(digits.take(i - start)),
            acc == decimal_value(digits.take(i - start)),
            acc <= u32::MAX,
        decreases n - i,
    {
        let b = s[i];
        if b < 48 || b > 57 {
            assert(digits[i - start] == b);
            return None;
        }
        assert(digits.take(i + 1 - start).drop_last() =~= digits.take(i - start));
        acc = acc * 10 + (b - 48) as u64;
        i = i + 1;
        if acc > u32::MAX as u64 {
            proof {
                if all_digits(digits) {
                    lemma_decimal_value_prefix(digits, i - start);
                }
            }
            return None;
        }
    }
    assert(digits.take(n - start) =~= digits);
    Some(acc as u32)
}

/// What `usize::from_str` accepts, on the UTF-8 bytes of the text: an optional
/// `+` followed by at least one decimal digit, with a value that fits in `usize`.
pub open spec fn spec_parse_usize(s: Seq<u8>) -> Option<usize> {
    let digits = if s.len() > 1 && s[0] == 43 {
        s.drop_first()
    } else {
        s
    };
    if digits.len() == 0 || !all_digits(digits) || decimal_value(digits) > usize::MAX {
        None
    } else {
        Some(decimal_value(digits) as usize)
    }
}

/// Parses decimal text the way `usize::from_str` does.
pub fn parse_usize(s: &[u8]) -> (r: Option<usize>)
    ensures
        r == spec_parse_usize(s@),
{
    let n = s.len();
    let start: usize = if n > 1 && s[0] == 43 {
        1
    } else {
        0
    };
    let ghost digits = if s@.len() > 1 && s@[0] == 43 {
        s@.drop_first()
    } else {
        s@
    };
    assert(digits =~= s@.subrange(start as int, n as int));
    if start == n {
        return None;
    }
    let mut acc: u128 = 0;
    let mut i: usize = start;
    assert(digits.take(0) =~= Seq::<u8>::empty());
    while i < n
        invariant
            start <= i <= n,
            n == s@.len(),
            digits == s@.subrange(start as int, n as int),
            digits == (if s@.len() > 1 && s@[0] == 43 {
                s@.drop_first()
            } else {
                s@
            }),
            all_digits(digits.take(i - start)),
            acc == decimal_value(digits.take(i - start)),
            acc <= usize::MAX,
        decreases n - i,
    {
        let b = s[i];
        if b < 48 || b > 57 {
            assert(digits[i - start] == b);
            return None;
        }
        assert(digits.take(i + 1 - start).drop_last() =~= digits.take(i - start));
        acc = acc * 10 + (b - 48) as u128;
        i = i + 1;
        if acc > usize::MAX as u128 {
            proof {
                if all_digits(digits) {
                    lemma_decimal_value_prefix(digits, i - start);
                }
            }
            return None;
        }
    }
    assert(digits.take(n - start) =~= digits);
    Some(acc as usize)
}

/// Whether `a` begins with `prefix`.
pub fn bytes_start_with(a: &[u8], prefix: &[u8]) -> (r: bool)
    ensures
        r == (prefix@.len() <= a@.len() && a@.subrange(0, prefix@.len() as int) == prefix@),
{
    if prefix.len() > a.len() {
        return false;
    }
    let n = prefix.len();
    let mut i: usize = 0;
    while i < n
        invariant
            i <= n,
            n == prefix@.len(),
            n <= a@.len(),
            forall|j: int| 0 <= j < i ==> a@[j] == prefix@[j],
        decreases n - i,
    {
        if a[i] != prefix[i] {
            assert(a@.subrange(0, n as int)[i as int] != prefix@[i as int]);
            return false;
        }
        i = i + 1;
    }
    assert(a@.subrange(0, n as int) =~= prefix@);
    true
}

/// Whether two byte strings are equal.
pub fn bytes_eq(a: &[u8], b: &[u8]) -> (r: bool)
    ensures
        r == (a@ == b@),
{
    if a.len() != b.len() {
        return false;
    }
    let n = a.len();
    let mut i: usize = 0;
    while i < n
        invariant
            i <= n,
            n == a@.len(),
            n == b@.len(),
            forall|j: int| 0 <= j < i ==> a@[j] == b@[j],
        decreases n - i,
    {
        if a[i] != b[i] {
            return false;
        }
        i = i + 1;
    }
    assert(a@ =~= b@);
    true
}

/// Whether two strings are equal.
pub fn str_eq(a: &str, b: &str) -> (r: bool)
    ensures
        r == (a@ == b@),
{
    let r = bytes_eq(a.as_bytes(), b.as_bytes());
    proof {
        encode_utf8_decode_utf8(a@);
        encode_utf8_decode_utf8(b@);
    }
    r
}

/// An owned copy of a string.
pub fn owned(s: &str) -> (r: String)
    ensures
        r@ == s@,
{
    String::from_str(s)
}

} // verus!
