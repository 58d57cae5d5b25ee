//! Palette text files loaded into the preview: every line holding a `#` gives
//! one color, read from the hex digits right after it (and after any
//! whitespace).
//!
//! The text is read through its UTF-8 bytes; whitespace is every character
//! with the Unicode `White_Space` property.

use vstd::prelude::*;
use vstd::string::{StringExecFns, StringSliceAdditionalSpecFns};
use crate::palette_config::{hex_value, hex_value_exec, next_byte, next_byte_exec, trim_range, trim_range_exec};
use crate::text::owned;

verus! {

/// The byte is an ASCII hex digit.
pub open spec fn is_hex_digit(x: u8) -> bool {
    hex_value(x) is Some
}

/// How many hex digits, at most `limit`, stand in `b[s..e]` from `s` on.
pub open spec fn hex_run(b: Seq<u8>, s: int, e: int, limit: int) -> int
    decreases limit,
{
    if limit <= 0 || s < 0 || s >= e || e > b.len() || !is_hex_digit(b[s]) {
        0
    } else {
        1 + hex_run(b, s + 1, e, limit - 1)
    }
}

/// The message for a color text that is not 6 or 8 hex digits.
pub open spec fn invalid_color_text(digits: Seq<u8>) -> Seq<char> {
    "invalid color #"@ + digits.map_values(|x: u8| x as char)
}

/// The byte of two hex digits.
pub open spec fn hex_byte(hi: u8, lo: u8) -> u8 {
    (16 * hex_value(hi)->0 + hex_value(lo)->0) as u8
}

/// The color that `b[s..e]` names: the (at most 8) hex digits after
/// leading whitespace, which must be 6 (opaque) or 8 (with alpha).
pub open spec fn spec_preview_color(b: Seq<u8>, s: int, e: int) -> Result<[u8; 4], Seq<char>> {
    let t = trim_range(b, s, e).0;
    let n = hex_run(b, t, e, 8);
    if n != 6 && n != 8 {
        Err(invalid_color_text(b.subrange(t, t + n)))
    } else {
        Ok(
            [
                hex_byte(b[t], b[t + 1]),
                hex_byte(b[t + 2], b[t + 3]),
                hex_byte(b[t + 4], b[t + 5]),
                if n == 8 {
                    hex_byte(b[t + 6], b[t + 7])
                } else {
                    255
                },
            ],
        )
    }
}

/// The colors of the lines from `pos` on, after `colors`, or the first
/// error: a line without `#` is skipped.
pub open spec fn preview_scan(b: Seq<u8>, pos: int, colors: Seq<[u8; 4]>) -> Result<Seq<[u8; 4]>, Seq<char>>
    decreases b.len() - pos,
{
    if pos < 0 || pos >= b.len() {
        Ok(colors)
    } else {
        let nl = next_byte(b, pos, b.len() as int, 10);
        let h = next_byte(b, pos, nl, 35);
        let line = if h == nl {
            Ok(colors)
        } else {
            match spec_preview_color(b, h + 1, nl) {
                Ok(c) => Ok(colors.push(c)),
                Err(m) => Err(m),
            }
        };
        match line {
            Err(m) => Err(m),
            Ok(cs) => if pos <= nl < b.len() {
                preview_scan(b, nl + 1, cs)
            } else {
                Ok(cs)
            },
        }
    }
}

/// The colors of a palette text, or why it has none.
pub open spec fn spec_preview_palette_colors(b: Seq<u8>) -> Result<Seq<[u8; 4]>, Seq<char>> {
    match preview_scan(b, 0, Seq::empty()) {
        Ok(colors) => if colors.len() == 0 {
            Err("no #RRGGBB colors found"@)
        } else {
            Ok(colors)
        },
        Err(m) => Err(m),
    }
}

fn hex_digit_text(x: u8) -> (s: &'static str)
    requires
        is_hex_digit(x),
    ensures
        s@ == seq![x as char],
{
    let s = match x {
        48 => "0",
        49 => "1",
        50 => "2",
        51 => "3",
        52 => "4",
        53 => "5",
        54 => "6",
        55 => "7",
        56 => "8",
        57 => "9",
        97 => "a",
        98 => "b",
        99 => "c",
        100 => "d",
        101 => "e",
        102 => "f",
        65 => "A",
        66 => "B",
        67 => "C",
        68 => "D",
        69 => "E",
        _ => "F",
    };
    proof {
        reveal_strlit("0");
        reveal_strlit("1");
        reveal_strlit("2");
        reveal_strlit("3");
        reveal_strlit("4");
        reveal_strlit("5");
        reveal_strlit("6");
        reveal_strlit("7");
        reveal_strlit("8");
        reveal_strlit("9");
        reveal_strlit("a");
        reveal_strlit("b");
        reveal_strlit("c");
        reveal_strlit("d");
        reveal_strlit("e");
        reveal_strlit("f");
        reveal_strlit("A");
        reveal_strlit("B");
        reveal_strlit("C");
        reveal_strlit("D");
        reveal_strlit("E");
        reveal_strlit("F");
    }
    assert(s@ =~= seq![x as char]);
    s
}

fn digit_at(b: &[u8], i: usize) -> (v: u8)
    requires
        i < b@.len(),
        is_hex_digit(b@[i as int]),
    ensures
        v == hex_value(b@[i as int])->0,
        v < 16,
{
    match hex_value_exec(b[i]) {
        Some(v) => v,
        None => 0,
    }
}

fn preview_color_exec(b: &[u8], s: usize, e: usize) -> (r: Result<[u8; 4], String>)
    requires
        s <= e <= b@.len(),
    ensures
        match spec_preview_color(b@, s as int, e as int) {
            Ok(c) => r == Ok::<[u8; 4], String>(c),
            Err(m) => r is Err && r->Err_0@ == m,
        },
{
    let t = trim_range_exec(b, s, e).0;
    let mut n: usize = 0;
    while n < 8 && t + n < e && hex_value_exec(b[t + n]).is_some()
        invariant
            s <= t <= e <= b@.len(),
            n <= 8,
            t + n <= e,
            t as int == trim_range(b@, s as int, e as int).0,
            hex_run(b@, t as int, e as int, 8) == n + hex_run(b@, t + n, e as int, 8 - n),
            forall|k: int| t <= k < t + n ==> #[trigger] is_hex_digit(b@[k]),
        decreases 8 - n,
    {
        n = n + 1;
    }
    assert(hex_run(b@, t + n, e as int, 8 - n) == 0);
    if n != 6 && n != 8 {
        let mut m = owned("invalid color #");
        let mut k: usize = 0;
        while k < n
            invariant
                k <= n,
                t + n <= e <= b@.len(),
                forall|j: int| t <= j < t + n ==> #[trigger] is_hex_digit(b@[j]),
                m@ == "invalid color #"@ + b@.subrange(t as int, t + k).map_values(|x: u8| x as char),
            decreases n - k,
        {
            m.append(hex_digit_text(b[t + k]));
            assert(b@.subrange(t as int, t + k + 1).map_values(|x: u8| x as char) =~= b@.subrange(
                t as int,
                t + k,
            ).map_values(|x: u8| x as char).push(b@[t + k] as char));
            k = k + 1;
        }
        return Err(m);
    }
    assert(is_hex_digit(b@[t as int]) && is_hex_digit(b@[t + 1]) && is_hex_digit(b@[t + 2]));
    assert(is_hex_digit(b@[t + 3]) && is_hex_digit(b@[t + 4]) && is_hex_digit(b@[t + 5]));
    let r = 16 * digit_at(b, t) + digit_at(b, t + 1);
    let g = 16 * digit_at(b, t + 2) + digit_at(b, t + 3);
    let bl = 16 * digit_at(b, t + 4) + digit_at(b, t + 5);
    let a = if n == 8 {
        assert(is_hex_digit(b@[t + 6]) && is_hex_digit(b@[t + 7]));
        16 * digit_at(b, t + 6) + digit_at(b, t + 7)
    } else {
        255
    };
    Ok([r, g, bl, a])
}

/// Reads a color written after a `#`: leading whitespace is skipped, and the
/// hex digits that follow (at most 8) must be 6 (`RRGGBB`) or 8
/// (`RRGGBBAA`); otherwise the error names them.
pub fn parse_preview_palette_color(value: &str) -> (r: Result<[u8; 4], String>)
    ensures
        match spec_preview_color(value.spec_bytes(), 0, value.spec_bytes().len() as int) {
            Ok(c) => r == Ok::<[u8; 4], String>(c),
            Err(m) => r is Err && r->Err_0@ == m,
        },
{
    let b = value.as_bytes();
    preview_color_exec(b, 0, b.len())
}

/// The colors of a palette text: one for each line holding a `#`, read from
/// what follows its first `#`. The first unreadable color is the error, and
/// a text without colors is one too.
pub fn preview_palette_colors(contents: &str) -> (r: Result<Vec<[u8; 4]>, String>)
    ensures
        match spec_preview_palette_colors(contents.spec_bytes()) {
            Ok(colors) => r is Ok && r->Ok_0@ == colors,
            Err(m) => r is Err && r->Err_0@ == m,
        },
{
    let b = contents.as_bytes();
    let len = b.len();
    let mut colors: Vec<[u8; 4]> = Vec::new();
    let mut pos: usize = 0;
    while pos < len
        invariant
            pos <= len,
            len == b@.len(),
            b@ == contents.spec_bytes(),
            preview_scan(b@, 0, Seq::empty()) == preview_scan(b@, pos as int, colors@),
        decreases len - pos,
    {
        let nl = next_byte_exec(b, pos, len, 10);
        let h = next_byte_exec(b, pos, nl, 35);
        if h < nl {
            match preview_color_exec(b, h + 1, nl) {
                Ok(c) => colors.push(c),
                Err(m) => {
                    assert(preview_scan(b@, pos as int, colors@) == Err::<Seq<[u8; 4]>, Seq<char>>(m@));
                    return Err(m);
                },
            }
        }
        if nl < len {
            pos = nl + 1;
        } else {
            pos = len;
        }
    }
    if colors.len() == 0 {
        return Err(owned("no #RRGGBB colors found"));
    }
    Ok(colors)
}

} // verus!
