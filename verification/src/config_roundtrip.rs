//! What the palette configuration writer writes, the configuration parser
//! reads back: the colors, in order, and every matching setting from the
//! value written for it.

use vstd::prelude::*;
use vstd::utf8::encode_utf8;
use crate::palette_config::{
    assignment, hex_pair, is_ascii_ws, line_step, matching_field, next_byte, scan_quotes, set_matching_field,
    skip_brackets, skip_hashes, spec_hex_color, strip_end_brackets, trim_end_from, trim_range, trim_start_from, ws_len,
    ws_len_before, ConfigState, HexColor, ScanStep, color_line, color_lines, matching_lines, written_color_bytes, hex_value, written_key, scan_lines, line_end,
    initial_state, spec_parse_config, spec_serialize_config, ConfigOutcome,
};
use crate::stream_state::{hex_digit, hex_lower};
use crate::palette_lut::{default_matching, PaletteConfigModel, PaletteMatching};
use vstd::utf8::is_ascii_chars;

verus! {

/// The byte is ASCII and not whitespace.
pub open spec fn solid(x: u8) -> bool {
    x < 128 && !is_ascii_ws(x)
}

proof fn lemma_next_byte_absent(b: Seq<u8>, s: int, e: int, x: u8)
    requires
        s <= e,
        forall|i: int| s <= i < e ==> b[i] != x,
    ensures
        next_byte(b, s, e, x) == e,
    decreases e - s,
{
    if s < e {
        lemma_next_byte_absent(b, s + 1, e, x);
    }
}

proof fn lemma_next_byte_at(b: Seq<u8>, s: int, j: int, e: int, x: u8)
    requires
        s <= j < e,
        b[j] == x,
        forall|i: int| s <= i < j ==> b[i] != x,
    ensures
        next_byte(b, s, e, x) == j,
    decreases j - s,
{
    if s < j {
        lemma_next_byte_at(b, s + 1, j, e, x);
    }
}

proof fn lemma_trim_start_solid(b: Seq<u8>, s: int, e: int)
    requires
        0 <= s < e <= b.len(),
        solid(b[s]),
    ensures
        trim_start_from(b, s, e) == s,
{
    assert(ws_len(b.subrange(0, e), s) == 0);
}

proof fn lemma_trim_start_space(b: Seq<u8>, s: int, e: int)
    requires
        0 <= s < e <= b.len(),
        b[s] == 32,
    ensures
        trim_start_from(b, s, e) == trim_start_from(b, s + 1, e),
{
    assert(ws_len(b.subrange(0, e), s) == 1);
}

proof fn lemma_trim_end_solid(b: Seq<u8>, s: int, e: int)
    requires
        0 <= s < e <= b.len(),
        solid(b[e - 1]),
    ensures
        trim_end_from(b, s, e) == e,
{
    assert(ws_len_before(b, s, e) == 0) by {
        if e - 2 >= s {
            assert(b.subrange(0, e)[e - 1] == b[e - 1]);
        }
        if e - 3 >= s {
            assert(b.subrange(0, e)[e - 1] == b[e - 1]);
        }
    }
}

proof fn lemma_trim_end_space(b: Seq<u8>, s: int, e: int)
    requires
        0 <= s < e <= b.len(),
        b[e - 1] == 32,
    ensures
        trim_end_from(b, s, e) == trim_end_from(b, s, e - 1),
{
    assert(ws_len_before(b, s, e) == 1);
}

/// Trimming the end never removes a solid byte.
proof fn lemma_trim_end_keeps(b: Seq<u8>, s: int, e: int, j: int)
    requires
        0 <= s <= j < e <= b.len(),
        solid(b[j]),
    ensures
        trim_end_from(b, s, e) >= j + 1,
    decreases e - s,
{
    if j == e - 1 {
        lemma_trim_end_solid(b, s, e);
    } else {
        let w = ws_len_before(b, s, e);
        if w > 0 {
            assert(e - w > j) by {
                if w == 2 {
                    assert(b.subrange(0, e)[e - 2] == b[e - 2]);
                }
                if w == 3 {
                    assert(b.subrange(0, e)[e - 3] == b[e - 3]);
                    assert(b.subrange(0, e)[e - 2] == b[e - 2]);
                }
            }
            lemma_trim_end_keeps(b, s, e - w, j);
        }
    }
}

/// Outside quotes, a stretch without `"` adds nothing.
proof fn lemma_scan_quotes_none(b: Seq<u8>, i: int, e: int, st: ConfigState)
    requires
        i <= e,
        forall|k: int| i <= k < e ==> b[k] != 34,
    ensures
        scan_quotes(b, i, e, false, st) == ScanStep::Continue(st),
{
    lemma_next_byte_absent(b, i, e, 34);
}

/// The quoted text `b[s..e]` is `#` and `hl` hex digits whose pairs are the
/// bytes of `c` (alpha 255 when there are 6).
pub open spec fn hex_text_at(b: Seq<u8>, s: int, hl: int, c: [u8; 4]) -> bool {
    &&& hl == 6 || hl == 8
    &&& 0 <= s
    &&& s + 1 + hl <= b.len()
    &&& b[s] == 35
    &&& forall|j: int| s + 1 <= j < s + 1 + hl ==> solid(#[trigger] b[j]) && b[j] != 35 && b[j] != 34
    &&& hex_pair(b[s + 1], b[s + 2]) == Some(c[0])
    &&& hex_pair(b[s + 3], b[s + 4]) == Some(c[1])
    &&& hex_pair(b[s + 5], b[s + 6]) == Some(c[2])
    &&& (hl == 6 <==> c[3] == 255)
    &&& hl == 8 ==> hex_pair(b[s + 7], b[s + 8]) == Some(c[3])
}

proof fn lemma_hex_text(b: Seq<u8>, s: int, hl: int, c: [u8; 4])
    requires
        hex_text_at(b, s, hl, c),
    ensures
        spec_hex_color(b, s, s + 1 + hl) == HexColor::Color(c),
{
    let e = s + 1 + hl;
    assert(solid(b[s]));
    lemma_trim_start_solid(b, s, e);
    assert(solid(b[e - 1]));
    lemma_trim_end_solid(b, s, e);
    assert(trim_range(b, s, e) == (s, e));
    assert(b[s + 1] != 35);
    assert(skip_hashes(b, s + 1, e) == s + 1);
    assert(skip_hashes(b, s, e) == s + 1);
    assert(solid(b[s + 3]) && solid(b[s + 5]));
    if hl == 8 {
        assert(solid(b[s + 7]));
        assert(c =~= [hex_pair(b[s + 1], b[s + 2])->0, hex_pair(b[s + 3], b[s + 4])->0, hex_pair(b[s + 5], b[s + 6])->0, hex_pair(b[s + 7], b[s + 8])->0]);
    } else {
        assert(c =~= [hex_pair(b[s + 1], b[s + 2])->0, hex_pair(b[s + 3], b[s + 4])->0, hex_pair(b[s + 5], b[s + 6])->0, 255u8]);
    }
}

/// The line `b[p..p + 8 + hl]` is `    "#` + hex digits + `",`.
pub open spec fn color_line_at(b: Seq<u8>, p: int, hl: int, c: [u8; 4]) -> bool {
    &&& 0 <= p
    &&& p + 8 + hl <= b.len()
    &&& b[p] == 32 && b[p + 1] == 32 && b[p + 2] == 32 && b[p + 3] == 32
    &&& b[p + 4] == 34
    &&& hex_text_at(b, p + 5, hl, c)
    &&& b[p + 6 + hl] == 34
    &&& b[p + 7 + hl] == 44
}

proof fn lemma_color_quotes(b: Seq<u8>, p: int, hl: int, c: [u8; 4], st: ConfigState)
    requires
        color_line_at(b, p, hl, c),
    ensures
        scan_quotes(b, p, p + 8 + hl, false, st) == ScanStep::Continue(ConfigState { colors: st.colors.push(c), ..st }),
{
    let e = p + 8 + hl;
    assert forall|j: int| p + 6 <= j < p + 6 + hl implies #[trigger] b[j] != 34 by {
        assert(p + 5 + 1 <= j < p + 5 + 1 + hl);
    }
    lemma_next_byte_at(b, p, p + 4, e, 34);
    lemma_next_byte_at(b, p + 5, p + 6 + hl, e, 34);
    lemma_hex_text(b, p + 5, hl, c);
    let st2 = ConfigState { colors: st.colors.push(c), ..st };
    lemma_scan_quotes_none(b, p + 7 + hl, e, st2);
    assert(scan_quotes(b, p + 5, e, true, st) == ScanStep::Continue(st2));
}

/// A color line adds its color.
#[verifier::rlimit(30)]
proof fn lemma_color_line(b: Seq<u8>, p: int, hl: int, c: [u8; 4], st: ConfigState, values: Seq<Result<u32, String>>)
    requires
        color_line_at(b, p, hl, c),
    ensures
        line_step(b, p, p + 8 + hl, st, values) == ScanStep::Continue(ConfigState { colors: st.colors.push(c), ..st }),
{
    let e = p + 8 + hl;
    assert(b[p + 5] == 35);
    assert(b[p + 6] != 35 && solid(b[p + 7 + hl]));
    lemma_next_byte_at(b, p, p + 5, e, 35);
    lemma_trim_start_space(b, p, p + 5);
    lemma_trim_start_space(b, p + 1, p + 5);
    lemma_trim_start_space(b, p + 2, p + 5);
    lemma_trim_start_space(b, p + 3, p + 5);
    lemma_trim_start_solid(b, p + 4, p + 5);
    lemma_trim_end_solid(b, p + 4, p + 5);
    assert(trim_range(b, p, p + 5) == (p + 4, p + 5));
    lemma_trim_start_space(b, p, e);
    lemma_trim_start_space(b, p + 1, e);
    lemma_trim_start_space(b, p + 2, e);
    lemma_trim_start_space(b, p + 3, e);
    lemma_trim_start_solid(b, p + 4, e);
    lemma_trim_end_solid(b, p + 4, e);
    assert(trim_range(b, p, e) == (p + 4, e));
    lemma_next_byte_absent(b, p + 4, p + 5, 61);
    assert(assignment(b, p + 4, p + 5, st.section) is None);
    lemma_color_quotes(b, p, hl, c, st);
}

/// A line with no `#` or `"`, solid at both ends and not starting with `[`,
/// outside the `[matching]` section, changes nothing.
#[verifier::rlimit(30)]
proof fn lemma_plain_line(b: Seq<u8>, p: int, e: int, st: ConfigState, values: Seq<Result<u32, String>>)
    requires
        0 <= p < e <= b.len(),
        solid(b[p]),
        b[p] != 91,
        solid(b[e - 1]),
        forall|i: int| p <= i < e ==> b[i] != 35 && b[i] != 34,
        st.section != encode_utf8("matching"@),
    ensures
        line_step(b, p, e, st, values) == ScanStep::Continue(st),
{
    lemma_next_byte_absent(b, p, e, 35);
    lemma_trim_start_solid(b, p, e);
    lemma_trim_end_solid(b, p, e);
    assert(trim_range(b, p, e) == (p, e));
    assert(assignment(b, p, e, st.section) is None);
    lemma_scan_quotes_none(b, p, e, st);
}

/// An empty line changes nothing.
proof fn lemma_empty_line(b: Seq<u8>, p: int, st: ConfigState, values: Seq<Result<u32, String>>)
    requires
        0 <= p <= b.len(),
    ensures
        line_step(b, p, p, st, values) == ScanStep::Continue(st),
{
    assert(trim_range(b, p, p) == (p, p));
}

/// The line `[matching]` enters the section named by the bytes between the
/// brackets.
#[verifier::rlimit(30)]
proof fn lemma_section_line(b: Seq<u8>, p: int, st: ConfigState, values: Seq<Result<u32, String>>)
    requires
        0 <= p,
        p + 10 <= b.len(),
        b[p] == 91,
        b[p + 9] == 93,
        forall|i: int| p + 1 <= i < p + 9 ==> solid(#[trigger] b[i]) && b[i] != 91 && b[i] != 93,
        forall|i: int| p <= i < p + 10 ==> #[trigger] b[i] != 35 && b[i] != 34,
    ensures
        line_step(b, p, p + 10, st, values) == ScanStep::Continue(
            ConfigState { section: b.subrange(p + 1, p + 9), ..st },
        ),
{
    let e = p + 10;
    assert(solid(b[p + 1]) && solid(b[p + 8]) && b[p + 1] != 91 && b[p + 8] != 93);
    lemma_next_byte_absent(b, p, e, 35);
    lemma_trim_start_solid(b, p, e);
    lemma_trim_end_solid(b, p, e);
    assert(trim_range(b, p, e) == (p, e));
    assert(skip_brackets(b, p + 1, e) == p + 1);
    assert(skip_brackets(b, p, e) == p + 1);
    assert(strip_end_brackets(b, p + 1, p + 9) == p + 9);
    assert(strip_end_brackets(b, p + 1, e) == p + 9);
    lemma_trim_start_solid(b, p + 1, p + 9);
    lemma_trim_end_solid(b, p + 1, p + 9);
    assert(trim_range(b, p + 1, p + 9) == (p + 1, p + 9));
}

/// A matching line: a key naming setting `k`, ` = `, and a value text
/// without `"`, in the `[matching]` section.
pub open spec fn matching_line_at(b: Seq<u8>, p: int, kl: int, e: int, k: int) -> bool {
    &&& 0 <= p
    &&& kl > 0
    &&& p + kl + 3 <= e <= b.len()
    &&& forall|i: int| p <= i < p + kl ==> solid(#[trigger] b[i]) && b[i] != 61 && b[i] != 35 && b[i] != 34
    &&& b[p] != 91
    &&& b[p + kl] == 32
    &&& b[p + kl + 1] == 61
    &&& b[p + kl + 2] == 32
    &&& forall|i: int| p + kl + 3 <= i < e ==> #[trigger] b[i] != 34
    &&& matching_field(b.subrange(p, p + kl)) == Some(k)
}

#[verifier::rlimit(30)]
proof fn lemma_matching_line(
    b: Seq<u8>,
    p: int,
    kl: int,
    e: int,
    k: int,
    st: ConfigState,
    values: Seq<Result<u32, String>>,
    bits: u32,
)
    requires
        matching_line_at(b, p, kl, e, k),
        st.section == encode_utf8("matching"@),
        st.assigned < values.len(),
        values[st.assigned as int] == Ok::<u32, String>(bits),
    ensures
        line_step(b, p, e, st, values) == ScanStep::Continue(
            ConfigState {
                matching: set_matching_field(st.matching, k, bits),
                assigned: st.assigned + 1,
                ..st
            },
        ),
{
    let h = next_byte(b, p, e, 35);
    assert forall|i: int| p <= i < p + kl + 3 implies b[i] != 35 by {
        if i < p + kl {
            assert(b[i] != 35);
        }
    }
    crate::palette_config::lemma_next_byte_range(b, p, e, 35);
    assert(h >= p + kl + 3) by {
        if h < p + kl + 3 {
            lemma_next_byte_first(b, p, e, 35);
        }
    }
    assert(solid(b[p]));
    lemma_trim_start_solid(b, p, h);
    assert(solid(b[p + kl + 1]));
    lemma_trim_end_keeps(b, p, h, p + kl + 1);
    let le = trim_range(b, p, h).1;
    assert(trim_range(b, p, h).0 == p);
    lemma_trim_start_solid(b, p, e);
    lemma_trim_end_keeps(b, p, e, p);
    // The key: up to the first `=`, less the space before it.
    assert forall|i: int| p <= i < p + kl + 1 implies b[i] != 61 by {
        if i < p + kl {
            assert(b[i] != 61);
        }
    }
    lemma_next_byte_at(b, p, p + kl + 1, le, 61);
    assert(solid(b[p + kl - 1]));
    lemma_trim_start_solid(b, p, p + kl + 1);
    lemma_trim_end_space(b, p, p + kl + 1);
    lemma_trim_end_solid(b, p, p + kl);
    assert(trim_range(b, p, p + kl + 1) == (p, p + kl));
    assert(assignment(b, p, le, st.section) == Some((k, p + kl + 2, le)));
    let st2 = ConfigState { matching: set_matching_field(st.matching, k, bits), assigned: st.assigned + 1, ..st };
    assert forall|i: int| p <= i < e implies b[i] != 34 by {
        if i < p + kl {
            assert(b[i] != 34);
        }
    }
    lemma_scan_quotes_none(b, p, e, st2);
}

proof fn lemma_next_byte_first(b: Seq<u8>, s: int, e: int, x: u8)
    requires
        s < e,
        next_byte(b, s, e, x) < e,
    ensures
        b[next_byte(b, s, e, x)] == x,
        forall|i: int| s <= i < next_byte(b, s, e, x) ==> b[i] != x,
    decreases e - s,
{
    if b[s] != x {
        if s + 1 < e {
            lemma_next_byte_first(b, s + 1, e, x);
        } else {
            assert(next_byte(b, s + 1, e, x) == e);
        }
    }
}

/// The bytes of ASCII text.
pub open spec fn ascii_bytes(s: Seq<char>) -> Seq<u8> {
    s.map_values(|c: char| c as u8)
}

proof fn lemma_ascii_encode(s: Seq<char>)
    requires
        is_ascii_chars(s),
    ensures
        encode_utf8(s) == ascii_bytes(s),
{
    vstd::utf8::is_ascii_chars_encode_utf8(s);
    assert(encode_utf8(s) =~= ascii_bytes(s));
}

proof fn lemma_ascii_concat(a: Seq<char>, b: Seq<char>)
    requires
        is_ascii_chars(a),
        is_ascii_chars(b),
    ensures
        is_ascii_chars(a + b),
{
    assert forall|i: int| 0 <= i < (a + b).len() implies '\0' <= #[trigger] (a + b)[i] <= '\u{7f}' by {
        if i < a.len() {
            assert((a + b)[i] == a[i]);
        } else {
            assert((a + b)[i] == b[i - a.len()]);
        }
    }
}

/// The byte that hex digits `2 i` and `2 i + 1` of `h` spell.
pub open spec fn pair_at(h: Seq<char>, i: int) -> Option<u8> {
    hex_pair(h[2 * i] as u8, h[2 * i + 1] as u8)
}

/// Lowercase hex digits of bytes: ASCII, solid, neither `#` nor `"`, and
/// each pair reads back as its byte.
proof fn lemma_hex_lower(bytes: Seq<u8>)
    ensures
        hex_lower(bytes).len() == 2 * bytes.len(),
        is_ascii_chars(hex_lower(bytes)),
        forall|i: int|
            0 <= i < hex_lower(bytes).len() ==> solid(#[trigger] hex_lower(bytes)[i] as u8) && hex_lower(bytes)[i]
                as u8 != 35 && hex_lower(bytes)[i] as u8 != 34 && hex_lower(bytes)[i] as u8 != 10,
        forall|i: int| 0 <= i < bytes.len() ==> #[trigger] pair_at(hex_lower(bytes), i) == Some(bytes[i]),
    decreases bytes.len(),
{
    if bytes.len() > 0 {
        let init = bytes.drop_last();
        let x = bytes.last();
        lemma_hex_lower(init);
        let h = hex_lower(bytes);
        let hi = hex_digit(x / 16);
        let lo = hex_digit(x % 16);
        assert(h == hex_lower(init) + seq![hi, lo]);
        assert(hi as u8 == if x / 16 < 10 { 48 + x / 16 } else { 87 + x / 16 });
        assert(lo as u8 == if x % 16 < 10 { 48 + x % 16 } else { 87 + x % 16 });
        assert(hex_value(hi as u8) == Some((x / 16) as u8));
        assert(hex_value(lo as u8) == Some((x % 16) as u8));
        assert(hex_pair(hi as u8, lo as u8) == Some(x));
        assert forall|i: int| 0 <= i < h.len() implies '\0' <= #[trigger] h[i] <= '\u{7f}' by {
            if i < hex_lower(init).len() {
                assert(h[i] == hex_lower(init)[i]);
            }
        }
        assert forall|i: int| 0 <= i < h.len() implies solid(#[trigger] h[i] as u8) && h[i] as u8 != 35 && h[i]
            as u8 != 34 && h[i] as u8 != 10 by {
            if i < hex_lower(init).len() {
                assert(h[i] == hex_lower(init)[i]);
            }
        }
        assert forall|i: int| 0 <= i < bytes.len() implies #[trigger] pair_at(h, i) == Some(bytes[i]) by {
            if i < init.len() {
                assert(h[2 * i] == hex_lower(init)[2 * i]);
                assert(h[2 * i + 1] == hex_lower(init)[2 * i + 1]);
                assert(pair_at(hex_lower(init), i) == Some(init[i]));
            }
        }
    }
}

/// The number of hex digits written for a color.
pub open spec fn hex_len(c: [u8; 4]) -> int {
    2 * written_color_bytes(c).len() as int
}

/// The written line of a color: ASCII, `9 + hl` characters long.
proof fn lemma_color_line_chars(c: [u8; 4])
    ensures
        is_ascii_chars(color_line(c)),
        color_line(c).len() == 9 + hex_len(c),
{
    reveal_strlit("    \"#");
    reveal_strlit("\",\n");
    lemma_hex_lower(written_color_bytes(c));
    assert(is_ascii_chars("    \"#"@));
    assert(is_ascii_chars("\",\n"@));
    lemma_ascii_concat("    \"#"@, hex_lower(written_color_bytes(c)));
    lemma_ascii_concat("    \"#"@ + hex_lower(written_color_bytes(c)), "\",\n"@);
}

/// Bytes holding the written line of `c` at `p` form a color line, ended
/// by a line feed and holding no other.
proof fn lemma_color_line_placed(b: Seq<u8>, p: int, c: [u8; 4])
    requires
        0 <= p,
        p + color_line(c).len() <= b.len(),
        forall|j: int| 0 <= j < color_line(c).len() ==> b[p + j] == #[trigger] color_line(c)[j] as u8,
    ensures
        color_line_at(b, p, hex_len(c), c),
        b[p + 8 + hex_len(c)] == 10,
        b[p + 7 + hex_len(c)] != 13,
        forall|j: int| p <= j < p + 8 + hex_len(c) ==> #[trigger] b[j] != 10,
{
    let w = written_color_bytes(c);
    let hx = hex_lower(w);
    let hl = hex_len(c);
    let line = color_line(c);
    reveal_strlit("    \"#");
    reveal_strlit("\",\n");
    lemma_hex_lower(w);
    lemma_color_line_chars(c);
    assert(line == "    \"#"@ + hx + "\",\n"@);
    assert forall|j: int| 0 <= j < 6 implies line[j] == "    \"#"@[j] by {}
    assert forall|j: int| 6 <= j < 6 + hl implies line[j] == hx[j - 6] by {}
    assert forall|j: int| 6 + hl <= j < 9 + hl implies line[j] == "\",\n"@[j - 6 - hl] by {}
    assert(b[p] == line[0] as u8 && b[p + 1] == line[1] as u8 && b[p + 2] == line[2] as u8);
    assert(b[p + 3] == line[3] as u8 && b[p + 4] == line[4] as u8 && b[p + 5] == line[5] as u8);
    assert(b[p + 6 + hl] == line[6 + hl] as u8 && b[p + 7 + hl] == line[7 + hl] as u8);
    assert(b[p + 8 + hl] == line[8 + hl] as u8);
    assert forall|j: int| p + 6 <= j < p + 6 + hl implies #[trigger] b[j] == hx[j - p - 6] as u8 by {
        assert(b[p + (j - p)] == line[j - p] as u8);
    }
    assert forall|j: int| p + 5 + 1 <= j < p + 5 + 1 + hl implies solid(#[trigger] b[j]) && b[j] != 35 && b[j] != 34 by {
        assert(b[j] == hx[j - p - 6] as u8);
    }
    assert(hex_pair(b[p + 6], b[p + 7]) == Some(w[0])) by {
        assert(pair_at(hx, 0) == Some(w[0]));
        assert(b[p + 6] == hx[0] as u8 && b[p + 7] == hx[1] as u8);
    }
    assert(hex_pair(b[p + 8], b[p + 9]) == Some(w[1])) by {
        assert(pair_at(hx, 1) == Some(w[1]));
        assert(b[p + 8] == hx[2] as u8 && b[p + 9] == hx[3] as u8);
    }
    assert(hex_pair(b[p + 10], b[p + 11]) == Some(w[2])) by {
        assert(pair_at(hx, 2) == Some(w[2]));
        assert(b[p + 10] == hx[4] as u8 && b[p + 11] == hx[5] as u8);
    }
    if hl == 8 {
        assert(hex_pair(b[p + 12], b[p + 13]) == Some(w[3])) by {
            assert(pair_at(hx, 3) == Some(w[3]));
            assert(b[p + 12] == hx[6] as u8 && b[p + 13] == hx[7] as u8);
        }
    }
    assert(hex_text_at(b, p + 5, hl, c));
    assert forall|j: int| p <= j < p + 8 + hl implies #[trigger] b[j] != 10 by {
        assert(b[p + (j - p)] == line[j - p] as u8);
        if j - p >= 6 && j - p < 6 + hl {
            assert(b[j] == hx[j - p - 6] as u8);
        }
    }
}

/// The key written for setting `k`: ASCII letters and `_`, naming setting
/// `k` when read back.
proof fn lemma_written_key(k: int)
    requires
        0 <= k < 9,
    ensures
        is_ascii_chars(written_key(k)),
        written_key(k).len() > 0,
        written_key(k)[0] as u8 != 91,
        forall|i: int|
            0 <= i < written_key(k).len() ==> solid(#[trigger] written_key(k)[i] as u8) && written_key(k)[i] as u8
                != 61 && written_key(k)[i] as u8 != 35 && written_key(k)[i] as u8 != 34 && written_key(k)[i] as u8
                != 10,
        crate::palette_config::matching_field(ascii_bytes(written_key(k))) == Some(k),
{
    reveal_strlit("oklab_l");
    reveal_strlit("oklab_l_weight");
    reveal_strlit("l");
    reveal_strlit("l_weight");
    reveal_strlit("lightness");
    reveal_strlit("lightness_weight");
    reveal_strlit("value");
    reveal_strlit("value_weight");
    reveal_strlit("oklab_a");
    reveal_strlit("oklab_a_weight");
    reveal_strlit("a");
    reveal_strlit("a_weight");
    reveal_strlit("chroma");
    reveal_strlit("chroma_weight");
    reveal_strlit("oklab_b");
    reveal_strlit("oklab_b_weight");
    reveal_strlit("b");
    reveal_strlit("b_weight");
    reveal_strlit("hue");
    reveal_strlit("hue_weight");
    reveal_strlit("lightness_multiply");
    reveal_strlit("value_multiply");
    reveal_strlit("lightness_add");
    reveal_strlit("value_add");
    reveal_strlit("chroma_multiply");
    reveal_strlit("chroma_add");
    reveal_strlit("grey_chroma_threshold");
    reveal_strlit("gray_chroma_threshold");
    reveal_strlit("grey_threshold");
    reveal_strlit("gray_threshold");
    reveal_strlit("hue_add");
    lemma_ascii_encode(written_key(k));
    reveal(crate::palette_config::matching_field);
    assert("oklab_a"@[6] != "oklab_l"@[6]);
    assert("oklab_b"@[6] != "oklab_l"@[6] && "oklab_b"@[6] != "oklab_a"@[6]);
    assert("lightness_add"@[0] != "chroma_weight"@[0]);
    assert("chroma_add"@[0] != "hue_weight"@[0]);
    assert("hue_add"@[0] != "oklab_l"@[0] && "hue_add"@[0] != "oklab_a"@[0] && "hue_add"@[0] != "oklab_b"@[0]);
    vstd::utf8::encode_utf8_decode_utf8("oklab_l"@);
    vstd::utf8::encode_utf8_decode_utf8("oklab_l_weight"@);
    vstd::utf8::encode_utf8_decode_utf8("l"@);
    vstd::utf8::encode_utf8_decode_utf8("l_weight"@);
    vstd::utf8::encode_utf8_decode_utf8("lightness"@);
    vstd::utf8::encode_utf8_decode_utf8("lightness_weight"@);
    vstd::utf8::encode_utf8_decode_utf8("value"@);
    vstd::utf8::encode_utf8_decode_utf8("value_weight"@);
    vstd::utf8::encode_utf8_decode_utf8("oklab_a"@);
    vstd::utf8::encode_utf8_decode_utf8("oklab_a_weight"@);
    vstd::utf8::encode_utf8_decode_utf8("a"@);
    vstd::utf8::encode_utf8_decode_utf8("a_weight"@);
    vstd::utf8::encode_utf8_decode_utf8("chroma"@);
    vstd::utf8::encode_utf8_decode_utf8("chroma_weight"@);
    vstd::utf8::encode_utf8_decode_utf8("oklab_b"@);
    vstd::utf8::encode_utf8_decode_utf8("oklab_b_weight"@);
    vstd::utf8::encode_utf8_decode_utf8("b"@);
    vstd::utf8::encode_utf8_decode_utf8("b_weight"@);
    vstd::utf8::encode_utf8_decode_utf8("hue"@);
    vstd::utf8::encode_utf8_decode_utf8("hue_weight"@);
    vstd::utf8::encode_utf8_decode_utf8("lightness_multiply"@);
    vstd::utf8::encode_utf8_decode_utf8("value_multiply"@);
    vstd::utf8::encode_utf8_decode_utf8("lightness_add"@);
    vstd::utf8::encode_utf8_decode_utf8("value_add"@);
    vstd::utf8::encode_utf8_decode_utf8("chroma_multiply"@);
    vstd::utf8::encode_utf8_decode_utf8("chroma_add"@);
    vstd::utf8::encode_utf8_decode_utf8("grey_chroma_threshold"@);
    vstd::utf8::encode_utf8_decode_utf8("gray_chroma_threshold"@);
    vstd::utf8::encode_utf8_decode_utf8("grey_threshold"@);
    vstd::utf8::encode_utf8_decode_utf8("gray_threshold"@);
    vstd::utf8::encode_utf8_decode_utf8("hue_add"@);
}

/// A value text that can be written and read back: ASCII, with no line
/// feed or `"`, and not ending in a carriage return.
pub open spec fn plain_value_text(t: Seq<char>) -> bool {
    &&& is_ascii_chars(t)
    &&& forall|i: int| 0 <= i < t.len() ==> #[trigger] t[i] != '\n' && t[i] != '"'
    &&& t.len() > 0 ==> t.last() != '\r'
}

/// The written line of setting `k` with value text `t`.
pub open spec fn matching_line(k: int, t: Seq<char>) -> Seq<char> {
    written_key(k) + " = "@ + t + "\n"@
}

proof fn lemma_matching_line_chars(k: int, t: Seq<char>)
    requires
        0 <= k < 9,
        plain_value_text(t),
    ensures
        is_ascii_chars(matching_line(k, t)),
        matching_line(k, t).len() == written_key(k).len() + 4 + t.len(),
{
    reveal_strlit(" = ");
    reveal_strlit("\n");
    lemma_written_key(k);
    assert(is_ascii_chars(" = "@));
    assert(is_ascii_chars("\n"@));
    lemma_ascii_concat(written_key(k), " = "@);
    lemma_ascii_concat(written_key(k) + " = "@, t);
    lemma_ascii_concat(written_key(k) + " = "@ + t, "\n"@);
}

/// Bytes holding the written line of setting `k` at `p` form a matching
/// line, ended by a line feed and holding no other.
#[verifier::rlimit(30)]
proof fn lemma_matching_line_placed(b: Seq<u8>, p: int, k: int, t: Seq<char>)
    requires
        0 <= k < 9,
        plain_value_text(t),
        0 <= p,
        p + matching_line(k, t).len() <= b.len(),
        forall|j: int| 0 <= j < matching_line(k, t).len() ==> b[p + j] == #[trigger] matching_line(k, t)[j] as u8,
    ensures
        matching_line_at(b, p, written_key(k).len() as int, p + written_key(k).len() + 3 + t.len(), k),
        b[p + written_key(k).len() + 3 + t.len()] == 10,
        b[p + written_key(k).len() + 2 + t.len()] != 13,
        forall|j: int| p <= j < p + written_key(k).len() + 3 + t.len() ==> #[trigger] b[j] != 10,
{
    let key = written_key(k);
    let kl = key.len() as int;
    let line = matching_line(k, t);
    let e = p + kl + 3 + t.len();
    reveal_strlit(" = ");
    reveal_strlit("\n");
    lemma_written_key(k);
    lemma_matching_line_chars(k, t);
    assert(line == key + " = "@ + t + "\n"@);
    assert forall|j: int| 0 <= j < kl implies line[j] == key[j] by {}
    assert(line[kl] == ' ' && line[kl + 1] == '=' && line[kl + 2] == ' ');
    assert forall|j: int| kl + 3 <= j < kl + 3 + t.len() implies line[j] == t[j - kl - 3] by {}
    assert(line[kl + 3 + t.len()] == '\n');
    assert forall|i: int| p <= i < p + kl implies solid(#[trigger] b[i]) && b[i] != 61 && b[i] != 35 && b[i] != 34 && b[i] != 10 by {
        assert(b[p + (i - p)] == line[i - p] as u8);
        assert(line[i - p] == key[i - p]);
    }
    assert(b[p] == key[0] as u8) by {
        assert(b[p + 0] == line[0] as u8);
    }
    assert(b[p + kl] == line[kl] as u8 && b[p + kl + 1] == line[kl + 1] as u8 && b[p + kl + 2] == line[kl + 2] as u8);
    assert(b[e] == line[kl + 3 + t.len()] as u8);
    assert forall|i: int| p + kl + 3 <= i < e implies #[trigger] b[i] != 34 && b[i] != 10 by {
        assert(b[p + (i - p)] == line[i - p] as u8);
        assert(line[i - p] == t[i - p - kl - 3]);
    }
    assert(b.subrange(p, p + kl) =~= ascii_bytes(key)) by {
        assert forall|i: int| 0 <= i < kl implies b.subrange(p, p + kl)[i] == ascii_bytes(key)[i] by {
            assert(b[p + i] == line[i] as u8);
        }
    }
    if t.len() > 0 {
        assert(b[e - 1] == line[kl + 2 + t.len()] as u8) by {
            assert(b[p + (kl + 2 + t.len())] == line[kl + 2 + t.len()] as u8);
        }
        assert(line[kl + 2 + t.len()] == t.last());
    }
    assert forall|j: int| p <= j < e implies #[trigger] b[j] != 10 by {
        if j < p + kl {
        } else if j < p + kl + 3 {
            assert(b[p + (j - p)] == line[j - p] as u8);
        } else {
        }
    }
}

proof fn lemma_cl_step(colors: Seq<[u8; 4]>, k: int)
    requires
        0 <= k < colors.len(),
    ensures
        color_lines(colors.take(k + 1)) == color_lines(colors.take(k)) + color_line(colors[k]),
{
    assert(colors.take(k + 1).drop_last() =~= colors.take(k));
}

proof fn lemma_cl_prefix(colors: Seq<[u8; 4]>, m: int, n: int)
    requires
        0 <= m <= n <= colors.len(),
    ensures
        color_lines(colors.take(m)).len() <= color_lines(colors.take(n)).len(),
        forall|i: int|
            0 <= i < color_lines(colors.take(m)).len() ==> #[trigger] color_lines(colors.take(n))[i] == color_lines(
                colors.take(m),
            )[i],
    decreases n - m,
{
    if m < n {
        lemma_cl_prefix(colors, m, n - 1);
        lemma_cl_step(colors, n - 1);
    }
}

proof fn lemma_cl_ascii(colors: Seq<[u8; 4]>, n: int)
    requires
        0 <= n <= colors.len(),
    ensures
        is_ascii_chars(color_lines(colors.take(n))),
    decreases n,
{
    if n == 0 {
        assert(color_lines(colors.take(0)) =~= Seq::<char>::empty());
    } else {
        lemma_cl_ascii(colors, n - 1);
        lemma_cl_step(colors, n - 1);
        lemma_color_line_chars(colors[n - 1]);
        lemma_ascii_concat(color_lines(colors.take(n - 1)), color_line(colors[n - 1]));
    }
}

proof fn lemma_ml_step(texts: Seq<Seq<char>>, k: int)
    requires
        0 <= k < texts.len(),
    ensures
        matching_lines(texts, (k + 1) as nat) == matching_lines(texts, k as nat) + matching_line(k, texts[k]),
{
    assert(matching_lines(texts, (k + 1) as nat) =~= matching_lines(texts, k as nat) + matching_line(k, texts[k]));
}

proof fn lemma_ml_prefix(texts: Seq<Seq<char>>, m: int, n: int)
    requires
        0 <= m <= n <= texts.len(),
    ensures
        matching_lines(texts, m as nat).len() <= matching_lines(texts, n as nat).len(),
        forall|i: int|
            0 <= i < matching_lines(texts, m as nat).len() ==> #[trigger] matching_lines(texts, n as nat)[i]
                == matching_lines(texts, m as nat)[i],
    decreases n - m,
{
    if m < n {
        lemma_ml_prefix(texts, m, n - 1);
        lemma_ml_step(texts, n - 1);
    }
}

proof fn lemma_ml_ascii(texts: Seq<Seq<char>>, n: int)
    requires
        0 <= n <= texts.len(),
        n <= 9,
        forall|k: int| 0 <= k < texts.len() ==> plain_value_text(#[trigger] texts[k]),
    ensures
        is_ascii_chars(matching_lines(texts, n as nat)),
    decreases n,
{
    if n > 0 {
        lemma_ml_ascii(texts, n - 1);
        lemma_ml_step(texts, n - 1);
        lemma_matching_line_chars(n - 1, texts[n - 1]);
        lemma_ascii_concat(matching_lines(texts, (n - 1) as nat), matching_line(n - 1, texts[n - 1]));
    }
}

/// A line processed without stopping hands its state to the next line.
proof fn lemma_scan_one_line(
    b: Seq<u8>,
    p: int,
    nl: int,
    st: ConfigState,
    st2: ConfigState,
    values: Seq<Result<u32, String>>,
)
    requires
        0 <= p <= nl < b.len(),
        next_byte(b, p, b.len() as int, 10) == nl,
        line_end(b, p, nl) == nl,
        line_step(b, p, nl, st, values) == ScanStep::Continue(st2),
    ensures
        scan_lines(b, p, st, values) == scan_lines(b, nl + 1, st2, values),
{
}

/// The parser state after the color lines `cs`, before any section.
pub open spec fn colors_state(cs: Seq<[u8; 4]>) -> ConfigState {
    ConfigState { section: Seq::empty(), colors: cs, matching: default_matching(), assigned: 0 }
}

proof fn lemma_color_chars_at(b: Seq<u8>, colors: Seq<[u8; 4]>, k: int)
    requires
        0 <= k < colors.len(),
        forall|i: int| 0 <= i < color_lines(colors).len() ==> b[11 + i] == #[trigger] color_lines(colors)[i] as u8,
    ensures
        11 + color_lines(colors.take(k)).len() + color_line(colors[k]).len() <= 11 + color_lines(colors).len(),
        color_lines(colors.take(k + 1)).len() == color_lines(colors.take(k)).len() + color_line(colors[k]).len(),
        forall|j: int|
            0 <= j < color_line(colors[k]).len() ==> b[11 + color_lines(colors.take(k)).len() + j]
                == #[trigger] color_line(colors[k])[j] as u8,
{
    let n = colors.len() as int;
    assert(colors.take(n) =~= colors);
    let pre = color_lines(colors.take(k));
    let line = color_line(colors[k]);
    lemma_cl_step(colors, k);
    lemma_cl_prefix(colors, k + 1, n);
    assert forall|j: int| 0 <= j < line.len() implies b[11 + pre.len() + j] == #[trigger] line[j] as u8 by {
        assert(color_lines(colors.take(k + 1))[pre.len() + j] == line[j]);
        assert(color_lines(colors)[pre.len() + j] == line[j]);
        assert(b[11 + (pre.len() + j)] == color_lines(colors)[pre.len() + j] as u8);
    }
}

#[verifier::rlimit(40)]
proof fn lemma_color_step(b: Seq<u8>, colors: Seq<[u8; 4]>, values: Seq<Result<u32, String>>, k: int)
    requires
        0 <= k < colors.len(),
        11 + color_lines(colors).len() < b.len(),
        forall|i: int| 0 <= i < color_lines(colors).len() ==> b[11 + i] == #[trigger] color_lines(colors)[i] as u8,
    ensures
        scan_lines(b, 11int + color_lines(colors.take(k)).len(), colors_state(colors.take(k)), values) == scan_lines(
            b,
            11int + color_lines(colors.take(k + 1)).len(),
            colors_state(colors.take(k + 1)),
            values,
        ),
{
    let c = colors[k];
    let p = 11int + color_lines(colors.take(k)).len();
    lemma_color_chars_at(b, colors, k);
    lemma_color_line_chars(c);
    lemma_color_line_placed(b, p, c);
    let hl = hex_len(c);
    let nl = p + 8 + hl;
    lemma_next_byte_at(b, p, nl, b.len() as int, 10);
    lemma_color_line(b, p, hl, c, colors_state(colors.take(k)), values);
    assert(colors.take(k).push(c) =~= colors.take(k + 1));
    lemma_scan_one_line(b, p, nl, colors_state(colors.take(k)), colors_state(colors.take(k + 1)), values);
}

proof fn lemma_scan_colors(b: Seq<u8>, colors: Seq<[u8; 4]>, values: Seq<Result<u32, String>>, k: int)
    requires
        0 <= k <= colors.len(),
        11 + color_lines(colors).len() < b.len(),
        forall|i: int| 0 <= i < color_lines(colors).len() ==> b[11 + i] == #[trigger] color_lines(colors)[i] as u8,
    ensures
        scan_lines(b, 11int + color_lines(colors.take(k)).len(), colors_state(colors.take(k)), values) == scan_lines(
            b,
            11int + color_lines(colors).len(),
            colors_state(colors),
            values,
        ),
    decreases colors.len() - k,
{
    assert(colors.take(colors.len() as int) =~= colors);
    if k < colors.len() {
        lemma_color_step(b, colors, values, k);
        lemma_scan_colors(b, colors, values, k + 1);
    }
}

/// The matching settings after the first `k` values, set in the order of
/// the settings.
pub open spec fn matching_after(values: Seq<Result<u32, String>>, k: nat) -> PaletteMatching
    decreases k,
{
    if k == 0 {
        default_matching()
    } else {
        set_matching_field(matching_after(values, (k - 1) as nat), k - 1, values[k - 1]->Ok_0)
    }
}

/// The parser state in the `[matching]` section after `k` settings.
pub open spec fn matching_state(colors: Seq<[u8; 4]>, values: Seq<Result<u32, String>>, k: nat) -> ConfigState {
    ConfigState {
        section: encode_utf8("matching"@),
        colors,
        matching: matching_after(values, k),
        assigned: k,
    }
}

proof fn lemma_matching_chars_at(b: Seq<u8>, texts: Seq<Seq<char>>, m0: int, k: int)
    requires
        0 <= k < 9,
        texts.len() == 9,
        forall|j: int| 0 <= j < 9 ==> plain_value_text(#[trigger] texts[j]),
        forall|i: int|
            0 <= i < matching_lines(texts, 9).len() ==> b[m0 + i] == #[trigger] matching_lines(texts, 9)[i] as u8,
    ensures
        matching_lines(texts, k as nat).len() + matching_line(k, texts[k]).len() <= matching_lines(texts, 9).len(),
        matching_lines(texts, (k + 1) as nat).len() == matching_lines(texts, k as nat).len() + matching_line(
            k,
            texts[k],
        ).len(),
        forall|j: int|
            0 <= j < matching_line(k, texts[k]).len() ==> b[m0 + matching_lines(texts, k as nat).len() + j]
                == #[trigger] matching_line(k, texts[k])[j] as u8,
{
    let pre = matching_lines(texts, k as nat);
    let line = matching_line(k, texts[k]);
    lemma_ml_step(texts, k);
    lemma_ml_prefix(texts, k + 1, 9);
    assert forall|j: int| 0 <= j < line.len() implies b[m0 + pre.len() + j] == #[trigger] line[j] as u8 by {
        assert(matching_lines(texts, (k + 1) as nat)[pre.len() + j] == line[j]);
        assert(matching_lines(texts, 9)[pre.len() + j] == line[j]);
        assert(b[m0 + (pre.len() + j)] == matching_lines(texts, 9)[pre.len() + j] as u8);
    }
}

#[verifier::rlimit(40)]
proof fn lemma_matching_step(
    b: Seq<u8>,
    colors: Seq<[u8; 4]>,
    texts: Seq<Seq<char>>,
    values: Seq<Result<u32, String>>,
    m0: int,
    k: int,
)
    requires
        0 <= k < 9,
        texts.len() == 9,
        forall|j: int| 0 <= j < 9 ==> plain_value_text(#[trigger] texts[j]),
        values.len() >= 9,
        forall|j: int| 0 <= j < 9 ==> #[trigger] values[j] is Ok,
        0 <= m0,
        m0 + matching_lines(texts, 9).len() == b.len(),
        forall|i: int|
            0 <= i < matching_lines(texts, 9).len() ==> b[m0 + i] == #[trigger] matching_lines(texts, 9)[i] as u8,
    ensures
        scan_lines(b, m0 + matching_lines(texts, k as nat).len(), matching_state(colors, values, k as nat), values)
            == scan_lines(
            b,
            m0 + matching_lines(texts, (k + 1) as nat).len(),
            matching_state(colors, values, (k + 1) as nat),
            values,
        ),
{
    let t = texts[k];
    let p = m0 + matching_lines(texts, k as nat).len();
    lemma_matching_chars_at(b, texts, m0, k);
    lemma_matching_line_chars(k, t);
    lemma_matching_line_placed(b, p, k, t);
    let kl = written_key(k).len() as int;
    let e = p + kl + 3 + t.len();
    lemma_next_byte_at(b, p, e, b.len() as int, 10);
    let bits = values[k]->Ok_0;
    lemma_matching_line(b, p, kl, e, k, matching_state(colors, values, k as nat), values, bits);
    lemma_scan_one_line(
        b,
        p,
        e,
        matching_state(colors, values, k as nat),
        matching_state(colors, values, (k + 1) as nat),
        values,
    );
}

proof fn lemma_scan_matching(
    b: Seq<u8>,
    colors: Seq<[u8; 4]>,
    texts: Seq<Seq<char>>,
    values: Seq<Result<u32, String>>,
    m0: int,
    k: int,
)
    requires
        0 <= k <= 9,
        texts.len() == 9,
        forall|j: int| 0 <= j < 9 ==> plain_value_text(#[trigger] texts[j]),
        values.len() >= 9,
        forall|j: int| 0 <= j < 9 ==> #[trigger] values[j] is Ok,
        0 <= m0,
        m0 + matching_lines(texts, 9).len() == b.len(),
        forall|i: int|
            0 <= i < matching_lines(texts, 9).len() ==> b[m0 + i] == #[trigger] matching_lines(texts, 9)[i] as u8,
    ensures
        scan_lines(b, m0 + matching_lines(texts, k as nat).len(), matching_state(colors, values, k as nat), values)
            == ScanStep::Continue(matching_state(colors, values, 9)),
    decreases 9 - k,
{
    if k < 9 {
        lemma_matching_step(b, colors, texts, values, m0, k);
        lemma_scan_matching(b, colors, texts, values, m0, k + 1);
    }
}

/// The bytes `]`, line feed, line feed, `[matching]`, line feed.
pub open spec fn tail_at(b: Seq<u8>, q: int) -> bool {
    &&& 0 <= q
    &&& q + 14 <= b.len()
    &&& b[q] == 93 && b[q + 1] == 10 && b[q + 2] == 10 && b[q + 3] == 91
    &&& b.subrange(q + 4, q + 12) == encode_utf8("matching"@)
    &&& b[q + 12] == 93 && b[q + 13] == 10
}

proof fn lemma_tail_bytes(b: Seq<u8>, q: int)
    requires
        0 <= q,
        q + 14 <= b.len(),
        forall|j: int| 0 <= j < 14 ==> b[q + j] == #[trigger] "]\n\n[matching]\n"@[j] as u8,
    ensures
        tail_at(b, q),
{
    reveal_strlit("]\n\n[matching]\n");
    reveal_strlit("matching");
    let t = "]\n\n[matching]\n"@;
    assert(b[q + 0] == t[0] as u8);
    assert(b[q + 1] == t[1] as u8);
    assert(b[q + 2] == t[2] as u8);
    assert(b[q + 3] == t[3] as u8);
    assert(b[q + 4] == t[4] as u8);
    assert(b[q + 5] == t[5] as u8);
    assert(b[q + 6] == t[6] as u8);
    assert(b[q + 7] == t[7] as u8);
    assert(b[q + 8] == t[8] as u8);
    assert(b[q + 9] == t[9] as u8);
    assert(b[q + 10] == t[10] as u8);
    assert(b[q + 11] == t[11] as u8);
    assert(b[q + 12] == t[12] as u8);
    assert(b[q + 13] == t[13] as u8);
    assert(vstd::utf8::is_ascii_chars("matching"@));
    lemma_ascii_encode("matching"@);
    assert(b.subrange(q + 4, q + 12) =~= encode_utf8("matching"@));
}

proof fn lemma_matching_name()
    ensures
        encode_utf8("matching"@).len() == 8,
        forall|i: int| 0 <= i < 8 ==> solid(#[trigger] encode_utf8("matching"@)[i]) && encode_utf8("matching"@)[i]
            != 91 && encode_utf8("matching"@)[i] != 93 && encode_utf8("matching"@)[i] != 35
            && encode_utf8("matching"@)[i] != 34,
{
    reveal_strlit("matching");
    assert(vstd::utf8::is_ascii_chars("matching"@));
    lemma_ascii_encode("matching"@);
}

/// `]`, an empty line and `[matching]` enter the matching section.
#[verifier::rlimit(40)]
proof fn lemma_scan_tail(b: Seq<u8>, q: int, colors: Seq<[u8; 4]>, values: Seq<Result<u32, String>>)
    requires
        tail_at(b, q),
        q + 14 < b.len(),
    ensures
        scan_lines(b, q, colors_state(colors), values) == scan_lines(
            b,
            q + 14,
            matching_state(colors, values, 0),
            values,
        ),
{
    lemma_matching_name();
    let m = encode_utf8("matching"@);
    let st0 = colors_state(colors);
    assert forall|i: int| q + 4 <= i < q + 12 implies #[trigger] b[i] == m[i - q - 4] by {
        assert(b.subrange(q + 4, q + 12)[i - q - 4] == b[i]);
    }
    // `]`
    lemma_next_byte_at(b, q, q + 1, b.len() as int, 10);
    assert(st0.section != m);
    lemma_plain_line(b, q, q + 1, st0, values);
    lemma_scan_one_line(b, q, q + 1, st0, st0, values);
    // the empty line
    lemma_next_byte_at(b, q + 2, q + 2, b.len() as int, 10);
    lemma_empty_line(b, q + 2, st0, values);
    lemma_scan_one_line(b, q + 2, q + 2, st0, st0, values);
    // `[matching]`
    assert forall|i: int| q + 3 <= i < q + 13 implies #[trigger] b[i] != 10 by {
        if q + 4 <= i < q + 12 {
            assert(b[i] == m[i - q - 4]);
        }
    }
    lemma_next_byte_at(b, q + 3, q + 13, b.len() as int, 10);
    assert forall|i: int| q + 3 + 1 <= i < q + 3 + 9 implies solid(#[trigger] b[i]) && b[i] != 91 && b[i] != 93 by {
        assert(b[i] == m[i - q - 4]);
    }
    assert forall|i: int| q + 3 <= i < q + 3 + 10 implies #[trigger] b[i] != 35 && b[i] != 34 by {
        if q + 4 <= i < q + 12 {
            assert(b[i] == m[i - q - 4]);
        }
    }
    lemma_section_line(b, q + 3, st0, values);
    lemma_scan_one_line(b, q + 3, q + 13, st0, matching_state(colors, values, 0), values);
}

/// The matching settings read from nine values, one per setting.
pub open spec fn matching_of_values(values: Seq<Result<u32, String>>) -> PaletteMatching {
    PaletteMatching {
        lightness: values[0]->Ok_0,
        chroma: values[1]->Ok_0,
        hue: values[2]->Ok_0,
        lightness_multiply: values[3]->Ok_0,
        lightness_add: values[4]->Ok_0,
        chroma_multiply: values[5]->Ok_0,
        chroma_add: values[6]->Ok_0,
        grey_chroma_threshold: values[7]->Ok_0,
        hue_add: values[8]->Ok_0,
    }
}

/// What the configuration writer writes, the configuration parser reads
/// back: given the parsed bits of the nine written values, the text of 1 to
/// 256 colors parses to those colors, in order, with each matching setting
/// set from its own value. The value texts are written verbatim, so they
/// must not break the line structure: plain ASCII without a line feed or
/// `"`, not ending in a carriage return.
pub proof fn lemma_written_config_reads_back(
    colors: Seq<[u8; 4]>,
    texts: Seq<Seq<char>>,
    values: Seq<Result<u32, String>>,
)
    requires
        1 <= colors.len() <= 256,
        texts.len() == 9,
        forall|k: int| 0 <= k < 9 ==> plain_value_text(#[trigger] texts[k]),
        values.len() >= 9,
        forall|k: int| 0 <= k < 9 ==> #[trigger] values[k] is Ok,
    ensures
        spec_parse_config(encode_utf8(spec_serialize_config(colors, texts)), values) == ConfigOutcome::Done(
            Ok(PaletteConfigModel { colors, matching: matching_of_values(values) }),
        ),
{
    let a = "colors = [\n"@;
    let t = "]\n\n[matching]\n"@;
    reveal_strlit("colors = [\n");
    reveal_strlit("]\n\n[matching]\n");
    let n = colors.len() as int;
    assert(colors.take(n) =~= colors);
    let cl = color_lines(colors);
    let ml = matching_lines(texts, 9);
    let s = spec_serialize_config(colors, texts);
    assert(s == a + cl + t + ml);
    lemma_cl_ascii(colors, n);
    lemma_ml_ascii(texts, 9);
    assert(is_ascii_chars(a));
    assert(is_ascii_chars(t));
    lemma_ascii_concat(a, cl);
    lemma_ascii_concat(a + cl, t);
    lemma_ascii_concat(a + cl + t, ml);
    lemma_ascii_encode(s);
    let b = encode_utf8(s);
    assert(b == ascii_bytes(s));
    let q = 11int + cl.len();
    let m0 = q + 14;
    assert(b.len() == m0 + ml.len());
    assert forall|i: int| 0 <= i < cl.len() implies b[11 + i] == #[trigger] cl[i] as u8 by {
        assert(s[11 + i] == cl[i]);
    }
    assert forall|j: int| 0 <= j < 14 implies b[q + j] == #[trigger] t[j] as u8 by {
        assert(s[q + j] == t[j]);
    }
    lemma_tail_bytes(b, q);
    assert forall|i: int| 0 <= i < ml.len() implies b[m0 + i] == #[trigger] ml[i] as u8 by {
        assert(s[m0 + i] == ml[i]);
    }
    lemma_ml_step(texts, 0);
    lemma_matching_line_chars(0, texts[0]);
    assert(ml.len() > 0) by {
        lemma_ml_prefix(texts, 1, 9);
    }
    // `colors = [`
    assert forall|j: int| 0 <= j < 11 implies b[j] == #[trigger] a[j] as u8 by {
        assert(s[j] == a[j]);
    }
    assert(b[0] == 99 && b[9] == 91 && b[10] == 10) by {
        assert(b[0] == a[0] as u8);
    }
    assert forall|j: int| 0 <= j < 10 implies #[trigger] b[j] != 35 && b[j] != 34 && b[j] != 10 by {
        assert(b[j] == a[j] as u8);
    }
    lemma_next_byte_at(b, 0, 10, b.len() as int, 10);
    reveal_strlit("matching");
    assert(encode_utf8("matching"@).len() > 0) by {
        assert(vstd::utf8::is_ascii_chars("matching"@));
        lemma_ascii_encode("matching"@);
    }
    lemma_plain_line(b, 0, 10, initial_state(), values);
    assert(colors.take(0) =~= Seq::<[u8; 4]>::empty());
    assert(color_lines(colors.take(0)) =~= Seq::<char>::empty());
    assert(initial_state() == colors_state(colors.take(0)));
    lemma_scan_one_line(b, 0, 10, initial_state(), initial_state(), values);
    lemma_scan_colors(b, colors, values, 0);
    lemma_scan_tail(b, q, colors, values);
    assert(matching_lines(texts, 0) =~= Seq::<char>::empty());
    lemma_scan_matching(b, colors, texts, values, m0, 0);
    reveal_with_fuel(matching_after, 10);
    assert(matching_after(values, 9) == matching_of_values(values));
}

} // verus!
