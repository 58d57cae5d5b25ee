//! The palette configuration text: quoted `#RRGGBB` / `#RRGGBBAA` colors and
//! an optional `[matching]` section of weights and offsets.
//!
//! The text is read through its UTF-8 bytes. The characters the format gives a
//! meaning to (`\n`, `\r`, `#`, `"`, `[`, `]`, `=`, `+` and hex digits) are
//! ASCII; whitespace is every character with the Unicode `White_Space`
//! property, matched by its UTF-8 encoding.
//!
//! Matching values are decimal floats. Their parsing is a standard-library
//! float conversion that this module does not perform: the parser stops with
//! [`ConfigStep::NeedValue`] at the first matching value it has no parsed bits
//! for, and resumes, from the start, once the caller supplies them.

use vstd::prelude::*;
use vstd::slice::slice_to_vec;
use vstd::string::StringSliceAdditionalSpecFns;
use vstd::utf8::encode_utf8;
use crate::palette_lut::{default_matching, PaletteConfig, PaletteConfigModel, PaletteMatching};
use crate::text::{bytes_eq, owned};
use crate::bytes_order::ascii_lower;
use crate::stream_state::{hex_encode, hex_lower};

verus! {

// ---------------------------------------------------------------------------
// Whitespace and trimming

/// The byte is ASCII whitespace (tab, line feed, vertical tab, form feed,
/// carriage return or space).
pub open spec fn is_ascii_ws(x: u8) -> bool {
    x == 32 || (9 <= x <= 13)
}

/// Length of the whitespace character that starts at `i` in `b`, or 0.
pub open spec fn ws_len(b: Seq<u8>, i: int) -> int {
    if i < 0 || i >= b.len() {
        0
    } else if is_ascii_ws(b[i]) {
        1
    } else if i + 1 < b.len() && b[i] == 0xc2 && (b[i + 1] == 0x85 || b[i + 1] == 0xa0) {
        2
    } else if i + 2 < b.len() && ((b[i] == 0xe1 && b[i + 1] == 0x9a && b[i + 2] == 0x80) || (b[i]
        == 0xe2 && b[i + 1] == 0x80 && ((0x80 <= b[i + 2] <= 0x8a) || b[i + 2] == 0xa8 || b[i + 2]
        == 0xa9 || b[i + 2] == 0xaf)) || (b[i] == 0xe2 && b[i + 1] == 0x81 && b[i + 2] == 0x9f) || (
    b[i] == 0xe3 && b[i + 1] == 0x80 && b[i + 2] == 0x80)) {
        3
    } else {
        0
    }
}

/// Length of the whitespace character that ends at `e` (exclusive) and starts
/// at or after `s`, or 0.
pub open spec fn ws_len_before(b: Seq<u8>, s: int, e: int) -> int {
    if e - 1 >= s && is_ascii_ws(b[e - 1]) {
        1
    } else if e - 2 >= s && ws_len(b.subrange(0, e), e - 2) == 2 {
        2
    } else if e - 3 >= s && ws_len(b.subrange(0, e), e - 3) == 3 {
        3
    } else {
        0
    }
}

/// Start of `b[s..e]` after leading whitespace.
pub open spec fn trim_start_from(b: Seq<u8>, s: int, e: int) -> int
    decreases e - s,
{
    if 0 <= s < e <= b.len() && ws_len(b.subrange(0, e), s) > 0 {
        trim_start_from(b, s + ws_len(b.subrange(0, e), s), e)
    } else {
        s
    }
}

/// End of `b[s..e]` before trailing whitespace.
pub open spec fn trim_end_from(b: Seq<u8>, s: int, e: int) -> int
    decreases e - s,
{
    if 0 <= s < e <= b.len() && ws_len_before(b, s, e) > 0 {
        trim_end_from(b, s, e - ws_len_before(b, s, e))
    } else {
        e
    }
}

/// The range of `b[s..e]` with leading and trailing whitespace removed.
pub open spec fn trim_range(b: Seq<u8>, s: int, e: int) -> (int, int) {
    let s2 = trim_start_from(b, s, e);
    (s2, trim_end_from(b, s2, e))
}

// ---------------------------------------------------------------------------
// Scanning helpers

/// First index in `s..e` holding `x`, or `e`.
pub open spec fn next_byte(b: Seq<u8>, s: int, e: int, x: u8) -> int
    decreases e - s,
{
    if s >= e {
        e
    } else if b[s] == x {
        s
    } else {
        next_byte(b, s + 1, e, x)
    }
}

/// The byte is `[` or `]`.
pub open spec fn is_bracket(x: u8) -> bool {
    x == 91 || x == 93
}

/// First index in `s..e` that is not a bracket, or `e`.
pub open spec fn skip_brackets(b: Seq<u8>, s: int, e: int) -> int
    decreases e - s,
{
    if s < e && is_bracket(b[s]) {
        skip_brackets(b, s + 1, e)
    } else {
        s
    }
}

/// End of `b[s..e]` before trailing brackets.
pub open spec fn strip_end_brackets(b: Seq<u8>, s: int, e: int) -> int
    decreases e - s,
{
    if s < e && is_bracket(b[e - 1]) {
        strip_end_brackets(b, s, e - 1)
    } else {
        e
    }
}

/// First index in `s..e` that is not `#`, or `e`.
pub open spec fn skip_hashes(b: Seq<u8>, s: int, e: int) -> int
    decreases e - s,
{
    if s < e && b[s] == 35 {
        skip_hashes(b, s + 1, e)
    } else {
        s
    }
}

pub proof fn lemma_next_byte_range(b: Seq<u8>, s: int, e: int, x: u8)
    ensures
        s < e ==> s <= next_byte(b, s, e, x) <= e,
        s >= e ==> next_byte(b, s, e, x) == e,
    decreases e - s,
{
    if s < e && b[s] != x {
        lemma_next_byte_range(b, s + 1, e, x);
    }
}

// ---------------------------------------------------------------------------
// Hex colors

/// The value of an ASCII hex digit, if the byte is one.
pub open spec fn hex_value(x: u8) -> Option<u8> {
    if 48 <= x <= 57 {
        Some((x - 48) as u8)
    } else if 97 <= x <= 102 {
        Some((x - 87) as u8)
    } else if 65 <= x <= 70 {
        Some((x - 55) as u8)
    } else {
        None
    }
}

/// What `u8::from_str_radix(_, 16)` gives for a two-byte text: a `+` and one
/// hex digit, or two hex digits.
pub open spec fn hex_pair(x: u8, y: u8) -> Option<u8> {
    if x == 43 {
        hex_value(y)
    } else if hex_value(x) is Some && hex_value(y) is Some {
        Some((16 * hex_value(x)->0 + hex_value(y)->0) as u8)
    } else {
        None
    }
}

/// The byte is an ASCII hex digit: `0-9`, `a-f` or `A-F`.
pub open spec fn is_hex_digit(x: u8) -> bool {
    (48 <= x <= 57) || (97 <= x <= 102) || (65 <= x <= 70)
}

/// Hex digits are read without regard to case: a pair and the same pair in
/// lower case read alike, and any two hex digits of either case read as a
/// byte.
pub proof fn lemma_hex_pair_ignores_case(x: u8, y: u8)
    ensures
        hex_pair(x, y) == hex_pair(ascii_lower(x), ascii_lower(y)),
        is_hex_digit(x) && is_hex_digit(y) ==> hex_pair(x, y) is Some,
{
}

/// Two hex digits read as the byte whose high and low nibbles they name,
/// `A`/`a` standing for 10 up to `F`/`f` for 15.
pub proof fn lemma_hex_pair_value(x: u8, y: u8)
    requires
        is_hex_digit(x),
        is_hex_digit(y),
        x != 43,
    ensures
        hex_pair(x, y) == Some(
            (16 * (if x <= 57 { x - 48 } else { ascii_lower(x) - 87 }) + (if y <= 57 {
                y - 48
            } else {
                ascii_lower(y) - 87
            })) as u8,
        ),
{
}

/// The byte is a UTF-8 continuation byte.
pub open spec fn is_continuation(x: u8) -> bool {
    0x80 <= x <= 0xbf
}

/// What a quoted text of the configuration is as a color.
#[derive(Clone, Copy, Debug)]
pub enum HexColor {
    /// Not 6 or 8 characters after trimming and dropping leading `#`s.
    NotColor,
    Color([u8; 4]),
    /// 6 or 8 characters, but not hex digits.
    Invalid,
    /// Two-byte slices would cut a multi-byte character (slicing there panics).
    Split,
}

/// How the quoted text `b[s..e]` reads as a color.
pub open spec fn spec_hex_color(b: Seq<u8>, s: int, e: int) -> HexColor {
    let (ts, te) = trim_range(b, s, e);
    let c = skip_hashes(b, ts, te);
    let n = te - c;
    let cut = |i: int| i >= n || !is_continuation(b[c + i]);
    if n != 6 && n != 8 {
        HexColor::NotColor
    } else if !cut(2) {
        HexColor::Split
    } else if hex_pair(b[c], b[c + 1]) is None {
        HexColor::Invalid
    } else if !cut(4) {
        HexColor::Split
    } else if hex_pair(b[c + 2], b[c + 3]) is None {
        HexColor::Invalid
    } else if !cut(6) {
        HexColor::Split
    } else if hex_pair(b[c + 4], b[c + 5]) is None {
        HexColor::Invalid
    } else if n == 8 && hex_pair(b[c + 6], b[c + 7]) is None {
        HexColor::Invalid
    } else {
        HexColor::Color(
            [
                hex_pair(b[c], b[c + 1])->0,
                hex_pair(b[c + 2], b[c + 3])->0,
                hex_pair(b[c + 4], b[c + 5])->0,
                if n == 8 {
                    hex_pair(b[c + 6], b[c + 7])->0
                } else {
                    255
                },
            ],
        )
    }
}

// ---------------------------------------------------------------------------
// Parser state and outcomes

/// The message of an invalid hex digit.
pub open spec fn invalid_digit_text() -> Seq<char> {
    "invalid digit found in string"@
}

/// The parser state after some lines.
pub struct ConfigState {
    pub section: Seq<u8>,
    pub colors: Seq<[u8; 4]>,
    pub matching: PaletteMatching,
    /// How many matching values have been read.
    pub assigned: nat,
}

/// The state before the first line.
pub open spec fn initial_state() -> ConfigState {
    ConfigState {
        section: Seq::empty(),
        colors: Seq::empty(),
        matching: default_matching(),
        assigned: 0,
    }
}

/// Where parsing stands after some input.
pub enum ScanStep {
    Continue(ConfigState),
    Fail(Seq<char>),
    /// A matching value at this byte range has no parsed bits yet.
    Need(int, int),
    /// A two-byte slice of a quoted color would cut a multi-byte character.
    Split,
}

/// Scans the quoted texts of `b[i..e]` (odd-numbered pieces between `"`),
/// collecting their colors.
pub open spec fn scan_quotes(b: Seq<u8>, i: int, e: int, inside: bool, st: ConfigState) -> ScanStep
    decreases e - i,
{
    let q = next_byte(b, i, e, 34);
    proof {
        lemma_next_byte_range(b, i, e, 34);
    }
    let next = if inside {
        match spec_hex_color(b, i, q) {
            HexColor::NotColor => ScanStep::Continue(st),
            HexColor::Color(c) => ScanStep::Continue(ConfigState { colors: st.colors.push(c), ..st }),
            HexColor::Invalid => ScanStep::Fail(invalid_digit_text()),
            HexColor::Split => ScanStep::Split,
        }
    } else {
        ScanStep::Continue(st)
    };
    match next {
        ScanStep::Continue(st2) => if q >= e || i >= e {
            ScanStep::Continue(st2)
        } else {
            scan_quotes(b, q + 1, e, !inside, st2)
        },
        other => other,
    }
}

/// Which matching setting a key names: 0 lightness, 1 chroma, 2 hue, 3
/// lightness multiply, 4 lightness add, 5 chroma multiply, 6 chroma add, 7
/// grey chroma threshold, 8 hue add.
#[verifier::opaque]
pub open spec fn matching_field(key: Seq<u8>) -> Option<int> {
    if key == encode_utf8("oklab_l"@) || key == encode_utf8("oklab_l_weight"@) || key
        == encode_utf8("l"@) || key == encode_utf8("l_weight"@) || key == encode_utf8(
        "lightness"@,
    ) || key == encode_utf8("lightness_weight"@) || key == encode_utf8("value"@) || key
        == encode_utf8("value_weight"@) {
        Some(0)
    } else if key == encode_utf8("oklab_a"@) || key == encode_utf8("oklab_a_weight"@) || key
        == encode_utf8("a"@) || key == encode_utf8("a_weight"@) || key == encode_utf8("chroma"@)
        || key == encode_utf8("chroma_weight"@) {
        Some(1)
    } else if key == encode_utf8("oklab_b"@) || key == encode_utf8("oklab_b_weight"@) || key
        == encode_utf8("b"@) || key == encode_utf8("b_weight"@) || key == encode_utf8("hue"@)
        || key == encode_utf8("hue_weight"@) {
        Some(2)
    } else if key == encode_utf8("lightness_multiply"@) || key == encode_utf8(
        "value_multiply"@,
    ) {
        Some(3)
    } else if key == encode_utf8("lightness_add"@) || key == encode_utf8("value_add"@) {
        Some(4)
    } else if key == encode_utf8("chroma_multiply"@) {
        Some(5)
    } else if key == encode_utf8("chroma_add"@) {
        Some(6)
    } else if key == encode_utf8("grey_chroma_threshold"@) || key == encode_utf8(
        "gray_chroma_threshold"@,
    ) || key == encode_utf8("grey_threshold"@) || key == encode_utf8("gray_threshold"@) {
        Some(7)
    } else if key == encode_utf8("hue_add"@) {
        Some(8)
    } else {
        None
    }
}

/// The matching settings with setting `field` replaced by `bits`.
pub open spec fn set_matching_field(m: PaletteMatching, field: int, bits: u32) -> PaletteMatching {
    if field == 0 {
        PaletteMatching { lightness: bits, ..m }
    } else if field == 1 {
        PaletteMatching { chroma: bits, ..m }
    } else if field == 2 {
        PaletteMatching { hue: bits, ..m }
    } else if field == 3 {
        PaletteMatching { lightness_multiply: bits, ..m }
    } else if field == 4 {
        PaletteMatching { lightness_add: bits, ..m }
    } else if field == 5 {
        PaletteMatching { chroma_multiply: bits, ..m }
    } else if field == 6 {
        PaletteMatching { chroma_add: bits, ..m }
    } else if field == 7 {
        PaletteMatching { grey_chroma_threshold: bits, ..m }
    } else {
        PaletteMatching { hue_add: bits, ..m }
    }
}

/// The matching assignment on the comment-free, trimmed line `b[ls..le]`, if
/// the parser is in the `[matching]` section, the line holds a `=` and the
/// key before it names a setting: the setting and the byte range of the
/// value text.
pub open spec fn assignment(b: Seq<u8>, ls: int, le: int, section: Seq<u8>) -> Option<(int, int, int)> {
    let eq = next_byte(b, ls, le, 61);
    let (ks, ke) = trim_range(b, ls, eq);
    if section == encode_utf8("matching"@) && eq < le && matching_field(b.subrange(ks, ke)) is Some {
        Some((matching_field(b.subrange(ks, ke))->0, eq + 1, le))
    } else {
        None
    }
}

/// Processes the line `b[s..e]`.
pub open spec fn line_step(
    b: Seq<u8>,
    s: int,
    e: int,
    st: ConfigState,
    values: Seq<Result<u32, String>>,
) -> ScanStep {
    let (ls, le) = trim_range(b, s, next_byte(b, s, e, 35));
    let (rs, re) = trim_range(b, s, e);
    if rs >= re {
        ScanStep::Continue(st)
    } else if ls < le && b[ls] == 91 && b[le - 1] == 93 {
        let bs = skip_brackets(b, ls, le);
        let be = strip_end_brackets(b, bs, le);
        let (ss, se) = trim_range(b, bs, be);
        ScanStep::Continue(ConfigState { section: b.subrange(ss, se), ..st })
    } else {
        let after_assignment = match assignment(b, ls, le, st.section) {
            None => ScanStep::Continue(st),
            Some((field, vs, ve)) => if st.assigned >= values.len() {
                ScanStep::Need(vs, ve)
            } else {
                match values[st.assigned as int] {
                    Ok(bits) => ScanStep::Continue(
                        ConfigState {
                            matching: set_matching_field(st.matching, field, bits),
                            assigned: st.assigned + 1,
                            ..st
                        },
                    ),
                    Err(msg) => ScanStep::Fail(msg@),
                }
            },
        };
        match after_assignment {
            ScanStep::Continue(st2) => scan_quotes(b, s, e, false, st2),
            other => other,
        }
    }
}

/// End of the line starting at `pos` whose line feed (or the end) is at `nl`:
/// a carriage return before a line feed is not part of the line.
pub open spec fn line_end(b: Seq<u8>, pos: int, nl: int) -> int {
    if nl < b.len() && nl > pos && b[nl - 1] == 13 {
        nl - 1
    } else {
        nl
    }
}

/// Processes the lines of `b` from byte `pos` on (as `str::lines` splits them).
pub open spec fn scan_lines(b: Seq<u8>, pos: int, st: ConfigState, values: Seq<Result<u32, String>>) -> ScanStep
    decreases b.len() - pos,
{
    if pos >= b.len() {
        ScanStep::Continue(st)
    } else {
        let nl = next_byte(b, pos, b.len() as int, 10);
        proof {
            lemma_next_byte_range(b, pos, b.len() as int, 10);
        }
        match line_step(b, pos, line_end(b, pos, nl), st, values) {
            ScanStep::Continue(st2) => if nl >= b.len() {
                ScanStep::Continue(st2)
            } else {
                scan_lines(b, nl + 1, st2, values)
            },
            other => other,
        }
    }
}

/// The outcome of parsing a whole configuration.
pub enum ConfigOutcome {
    Done(Result<PaletteConfigModel, Seq<char>>),
    Need(int, int),
    Split,
}

/// What parsing the configuration text `b` gives, with `values` as the bits
/// of its matching values in order.
pub open spec fn spec_parse_config(b: Seq<u8>, values: Seq<Result<u32, String>>) -> ConfigOutcome {
    match scan_lines(b, 0, initial_state(), values) {
        ScanStep::Continue(st) => if st.colors.len() == 0 {
            ConfigOutcome::Done(Err("palette contains no quoted #RRGGBB colors"@))
        } else if st.colors.len() > 256 {
            ConfigOutcome::Done(Err("palette contains more than 256 colors"@))
        } else {
            ConfigOutcome::Done(Ok(PaletteConfigModel { colors: st.colors, matching: st.matching }))
        },
        ScanStep::Fail(msg) => ConfigOutcome::Done(Err(msg)),
        ScanStep::Need(s, e) => ConfigOutcome::Need(s, e),
        ScanStep::Split => ConfigOutcome::Split,
    }
}

// ---------------------------------------------------------------------------
// Executable scanning

fn is_ascii_ws_exec(x: u8) -> (r: bool)
    ensures
        r == is_ascii_ws(x),
{
    x == 32 || (9 <= x && x <= 13)
}

/// Length of the whitespace character at `i` within `b[..e]`.
pub(crate) fn ws_len_exec(b: &[u8], i: usize, e: usize) -> (n: usize)
    requires
        i <= e <= b@.len(),
    ensures
        n == ws_len(b@.subrange(0, e as int), i as int),
        i < e ==> n <= e - i,
{
    let ghost p = b@.subrange(0, e as int);
    if i >= e {
        return 0;
    }
    let x = b[i];
    if is_ascii_ws_exec(x) {
        return 1;
    }
    if e - i > 1 && x == 0xc2 && (b[i + 1] == 0x85 || b[i + 1] == 0xa0) {
        return 2;
    }
    if e - i > 2 {
        let y = b[i + 1];
        let z = b[i + 2];
        if (x == 0xe1 && y == 0x9a && z == 0x80) || (x == 0xe2 && y == 0x80 && ((0x80 <= z && z
            <= 0x8a) || z == 0xa8 || z == 0xa9 || z == 0xaf)) || (x == 0xe2 && y == 0x81 && z
            == 0x9f) || (x == 0xe3 && y == 0x80 && z == 0x80) {
            return 3;
        }
    }
    0
}

fn ws_len_before_exec(b: &[u8], s: usize, e: usize) -> (n: usize)
    requires
        s <= e <= b@.len(),
    ensures
        n == ws_len_before(b@, s as int, e as int),
        n <= e - s,
{
    if e - s >= 1 && is_ascii_ws_exec(b[e - 1]) {
        return 1;
    }
    if e - s >= 2 && ws_len_exec(b, e - 2, e) == 2 {
        return 2;
    }
    if e - s >= 3 && ws_len_exec(b, e - 3, e) == 3 {
        return 3;
    }
    0
}

/// The range of `b[s..e]` with leading and trailing whitespace removed.
pub(crate) fn trim_range_exec(b: &[u8], s: usize, e: usize) -> (r: (usize, usize))
    requires
        s <= e <= b@.len(),
    ensures
        r.0 as int == trim_range(b@, s as int, e as int).0,
        r.1 as int == trim_range(b@, s as int, e as int).1,
        s <= r.0 <= r.1 <= e,
{
    let mut start = s;
    let mut k = ws_len_exec(b, start, e);
    while k > 0
        invariant
            s <= start <= e <= b@.len(),
            k == ws_len(b@.subrange(0, e as int), start as int),
            start < e ==> k <= e - start,
            trim_start_from(b@, s as int, e as int) == trim_start_from(b@, start as int, e as int),
        decreases e - start,
    {
        start = start + k;
        k = ws_len_exec(b, start, e);
    }
    assert(trim_start_from(b@, start as int, e as int) == start as int);
    let mut end = e;
    let mut k2 = ws_len_before_exec(b, start, end);
    while k2 > 0
        invariant
            start <= end <= e <= b@.len(),
            k2 == ws_len_before(b@, start as int, end as int),
            k2 <= end - start,
            trim_end_from(b@, start as int, e as int) == trim_end_from(b@, start as int, end as int),
        decreases end - start,
    {
        end = end - k2;
        k2 = ws_len_before_exec(b, start, end);
    }
    assert(trim_end_from(b@, start as int, end as int) == end as int);
    (start, end)
}

/// The text is empty once leading and trailing whitespace are removed.
pub open spec fn is_blank_spec(s: Seq<u8>) -> bool {
    trim_range(s, 0, s.len() as int).0 >= trim_range(s, 0, s.len() as int).1
}

/// `text.trim().is_empty()`.
pub fn is_blank(text: &str) -> (r: bool)
    ensures
        r == is_blank_spec(text.spec_bytes()),
{
    let b = text.as_bytes();
    let (s, e) = trim_range_exec(b, 0, b.len());
    s >= e
}

/// First index in `s..e` holding `x`, or `e`.
pub(crate) fn next_byte_exec(b: &[u8], s: usize, e: usize, x: u8) -> (r: usize)
    requires
        s <= e <= b@.len(),
    ensures
        r as int == next_byte(b@, s as int, e as int, x),
        s <= r <= e,
{
    let mut i = s;
    while i < e
        invariant
            s <= i <= e <= b@.len(),
            next_byte(b@, s as int, e as int, x) == next_byte(b@, i as int, e as int, x),
        decreases e - i,
    {
        if b[i] == x {
            return i;
        }
        i = i + 1;
    }
    i
}

fn skip_brackets_exec(b: &[u8], s: usize, e: usize) -> (r: usize)
    requires
        s <= e <= b@.len(),
    ensures
        r as int == skip_brackets(b@, s as int, e as int),
        s <= r <= e,
{
    let mut i = s;
    while i < e && (b[i] == 91 || b[i] == 93)
        invariant
            s <= i <= e <= b@.len(),
            skip_brackets(b@, s as int, e as int) == skip_brackets(b@, i as int, e as int),
        decreases e - i,
    {
        i = i + 1;
    }
    i
}

fn strip_end_brackets_exec(b: &[u8], s: usize, e: usize) -> (r: usize)
    requires
        s <= e <= b@.len(),
    ensures
        r as int == strip_end_brackets(b@, s as int, e as int),
        s <= r <= e,
{
    let mut j = e;
    while j > s && (b[j - 1] == 91 || b[j - 1] == 93)
        invariant
            s <= j <= e <= b@.len(),
            strip_end_brackets(b@, s as int, e as int) == strip_end_brackets(b@, s as int, j as int),
        decreases j - s,
    {
        j = j - 1;
    }
    j
}

fn skip_hashes_exec(b: &[u8], s: usize, e: usize) -> (r: usize)
    requires
        s <= e <= b@.len(),
    ensures
        r as int == skip_hashes(b@, s as int, e as int),
        s <= r <= e,
{
    let mut i = s;
    while i < e && b[i] == 35
        invariant
            s <= i <= e <= b@.len(),
            skip_hashes(b@, s as int, e as int) == skip_hashes(b@, i as int, e as int),
        decreases e - i,
    {
        i = i + 1;
    }
    i
}

pub(crate) fn hex_value_exec(x: u8) -> (r: Option<u8>)
    ensures
        r == hex_value(x),
{
    if 48 <= x && x <= 57 {
        Some(x - 48)
    } else if 97 <= x && x <= 102 {
        Some(x - 87)
    } else if 65 <= x && x <= 70 {
        Some(x - 55)
    } else {
        None
    }
}

fn hex_pair_exec(x: u8, y: u8) -> (r: Option<u8>)
    ensures
        r == hex_pair(x, y),
{
    if x == 43 {
        return hex_value_exec(y);
    }
    match (hex_value_exec(x), hex_value_exec(y)) {
        (Some(h), Some(l)) => Some(16 * h + l),
        _ => None,
    }
}

fn is_cut(b: &[u8], c: usize, n: usize, i: usize) -> (r: bool)
    requires
        c + n <= b@.len(),
    ensures
        r == (i >= n || !is_continuation(b@[c + i])),
{
    if i >= n {
        return true;
    }
    let total = b.len();
    assert(c + i < total);
    !(0x80 <= b[c + i] && b[c + i] <= 0xbf)
}

/// How the quoted text `b[s..e]` reads as a color.
fn hex_color_exec(b: &[u8], s: usize, e: usize) -> (r: HexColor)
    requires
        s <= e <= b@.len(),
    ensures
        r == spec_hex_color(b@, s as int, e as int),
{
    let (ts, te) = trim_range_exec(b, s, e);
    let c = skip_hashes_exec(b, ts, te);
    let n = te - c;
    if n != 6 && n != 8 {
        return HexColor::NotColor;
    }
    if !is_cut(b, c, n, 2) {
        return HexColor::Split;
    }
    let r = match hex_pair_exec(b[c], b[c + 1]) {
        Some(v) => v,
        None => return HexColor::Invalid,
    };
    if !is_cut(b, c, n, 4) {
        return HexColor::Split;
    }
    let g = match hex_pair_exec(b[c + 2], b[c + 3]) {
        Some(v) => v,
        None => return HexColor::Invalid,
    };
    if !is_cut(b, c, n, 6) {
        return HexColor::Split;
    }
    let bl = match hex_pair_exec(b[c + 4], b[c + 5]) {
        Some(v) => v,
        None => return HexColor::Invalid,
    };
    let a = if n == 8 {
        match hex_pair_exec(b[c + 6], b[c + 7]) {
            Some(v) => v,
            None => return HexColor::Invalid,
        }
    } else {
        255
    };
    HexColor::Color([r, g, bl, a])
}

/// Reads a palette color: the text, trimmed and without leading `#`s, is
/// `RRGGBB` or `RRGGBBAA` in hex (alpha 255 when absent). Not a color when
/// it has another length (`None`); an error when its digits are not hex.
/// Texts whose two-character slices would cut a multi-byte character are
/// left out (slicing them panics).
pub fn parse_hex_color(value: &str) -> (r: Option<Result<[u8; 4], String>>)
    requires
        !(spec_hex_color(value.spec_bytes(), 0, value.spec_bytes().len() as int) is Split),
    ensures
        match spec_hex_color(value.spec_bytes(), 0, value.spec_bytes().len() as int) {
            HexColor::NotColor => r is None,
            HexColor::Color(c) => r == Some(Ok::<[u8; 4], String>(c)),
            _ => r is Some && r->0 is Err && r->0->Err_0@ == invalid_digit_text(),
        },
{
    let b = value.as_bytes();
    match hex_color_exec(b, 0, b.len()) {
        HexColor::NotColor => None,
        HexColor::Color(c) => Some(Ok(c)),
        _ => Some(Err(owned("invalid digit found in string"))),
    }
}

/// The parser state while scanning the UTF-8 bytes of a configuration.
struct ScanState {
    section_start: usize,
    section_end: usize,
    colors: Vec<[u8; 4]>,
    matching: PaletteMatching,
    assigned: usize,
}

impl ScanState {
    spec fn wf(&self, b: Seq<u8>) -> bool {
        self.section_start <= self.section_end <= b.len()
    }

    spec fn model(&self, b: Seq<u8>) -> ConfigState {
        ConfigState {
            section: b.subrange(self.section_start as int, self.section_end as int),
            colors: self.colors@,
            matching: self.matching,
            assigned: self.assigned as nat,
        }
    }
}

/// Where parsing stands after a line or a run of quoted texts.
enum StepResult {
    Continue,
    Fail(String),
    Need(usize, usize),
    Split,
}

spec fn step_matches(r: StepResult, spec_step: ScanStep, st: ConfigState) -> bool {
    match r {
        StepResult::Continue => spec_step == ScanStep::Continue(st),
        StepResult::Fail(m) => spec_step == ScanStep::Fail(m@),
        StepResult::Need(s, e) => spec_step == ScanStep::Need(s as int, e as int),
        StepResult::Split => spec_step == ScanStep::Split,
    }
}

fn scan_quotes_exec(b: &[u8], s: usize, e: usize, st: &mut ScanState) -> (r: StepResult)
    requires
        s <= e <= b@.len(),
        old(st).wf(b@),
    ensures
        final(st).wf(b@),
        step_matches(r, scan_quotes(b@, s as int, e as int, false, old(st).model(b@)), final(st).model(b@)),
        !(r is Need),
{
    let ghost start_state = st.model(b@);
    let mut i = s;
    let mut inside = false;
    loop
        invariant
            s <= i <= e <= b@.len(),
            st.wf(b@),
            start_state == old(st).model(b@),
            scan_quotes(b@, s as int, e as int, false, start_state) == scan_quotes(
                b@,
                i as int,
                e as int,
                inside,
                st.model(b@),
            ),
        decreases e - i,
    {
        let ghost before = st.model(b@);
        let q = next_byte_exec(b, i, e, 34);
        proof {
            lemma_next_byte_range(b@, i as int, e as int, 34);
        }
        if inside {
            match hex_color_exec(b, i, q) {
                HexColor::NotColor => {},
                HexColor::Color(c) => {
                    st.colors.push(c);
                },
                HexColor::Invalid => {
                    assert(scan_quotes(b@, i as int, e as int, inside, before) == ScanStep::Fail(
                        invalid_digit_text(),
                    ));
                    return StepResult::Fail(owned("invalid digit found in string"));
                },
                HexColor::Split => {
                    return StepResult::Split;
                },
            }
        }
        if q >= e {
            assert(scan_quotes(b@, i as int, e as int, inside, before) == ScanStep::Continue(
                st.model(b@),
            ));
            return StepResult::Continue;
        }
        i = q + 1;
        inside = !inside;
    }
}

fn key_is(key: &[u8], name: &str) -> (r: bool)
    ensures
        r == (key@ == encode_utf8(name@)),
{
    bytes_eq(key, name.as_bytes())
}

fn matching_field_exec(key: &[u8]) -> (r: Option<usize>)
    ensures
        match matching_field(key@) {
            Some(f) => r == Some(f as usize) && 0 <= f < 9,
            None => r is None,
        },
{
    proof {
        reveal(matching_field);
    }
    if key_is(key, "oklab_l") || key_is(key, "oklab_l_weight") || key_is(key, "l") || key_is(key, "l_weight")
        || key_is(key, "lightness") || key_is(key, "lightness_weight") || key_is(key, "value")
        || key_is(key, "value_weight") {
        Some(0)
    } else if key_is(key, "oklab_a") || key_is(key, "oklab_a_weight") || key_is(key, "a") || key_is(
        key,
        "a_weight",
    ) || key_is(key, "chroma") || key_is(key, "chroma_weight") {
        Some(1)
    } else if key_is(key, "oklab_b") || key_is(key, "oklab_b_weight") || key_is(key, "b") || key_is(
        key,
        "b_weight",
    ) || key_is(key, "hue") || key_is(key, "hue_weight") {
        Some(2)
    } else if key_is(key, "lightness_multiply") || key_is(key, "value_multiply") {
        Some(3)
    } else if key_is(key, "lightness_add") || key_is(key, "value_add") {
        Some(4)
    } else if key_is(key, "chroma_multiply") {
        Some(5)
    } else if key_is(key, "chroma_add") {
        Some(6)
    } else if key_is(key, "grey_chroma_threshold") || key_is(key, "gray_chroma_threshold") || key_is(
        key,
        "grey_threshold",
    ) || key_is(key, "gray_threshold") {
        Some(7)
    } else if key_is(key, "hue_add") {
        Some(8)
    } else {
        None
    }
}

fn set_field(m: &mut PaletteMatching, field: usize, bits: u32)
    requires
        field < 9,
    ensures
        *final(m) == set_matching_field(*old(m), field as int, bits),
{
    if field == 0 {
        m.lightness = bits;
    } else if field == 1 {
        m.chroma = bits;
    } else if field == 2 {
        m.hue = bits;
    } else if field == 3 {
        m.lightness_multiply = bits;
    } else if field == 4 {
        m.lightness_add = bits;
    } else if field == 5 {
        m.chroma_multiply = bits;
    } else if field == 6 {
        m.chroma_add = bits;
    } else if field == 7 {
        m.grey_chroma_threshold = bits;
    } else {
        m.hue_add = bits;
    }
}

fn line_step_exec(
    b: &[u8],
    s: usize,
    e: usize,
    st: &mut ScanState,
    values: &[Result<u32, String>],
) -> (r: StepResult)
    requires
        s <= e <= b@.len(),
        old(st).wf(b@),
    ensures
        final(st).wf(b@),
        step_matches(r, line_step(b@, s as int, e as int, old(st).model(b@), values@), final(st).model(b@)),
{
    let hash = next_byte_exec(b, s, e, 35);
    let (ls, le) = trim_range_exec(b, s, hash);
    let (rs, re) = trim_range_exec(b, s, e);
    if rs >= re {
        return StepResult::Continue;
    }
    if ls < le && b[ls] == 91 && b[le - 1] == 93 {
        let bs = skip_brackets_exec(b, ls, le);
        let be = strip_end_brackets_exec(b, bs, le);
        let (ss, se) = trim_range_exec(b, bs, be);
        st.section_start = ss;
        st.section_end = se;
        return StepResult::Continue;
    }
    let section = vstd::slice::slice_subrange(b, st.section_start, st.section_end);
    let in_matching = key_is(section, "matching");
    let eq = next_byte_exec(b, ls, le, 61);
    let (ks, ke) = trim_range_exec(b, ls, eq);
    if in_matching && eq < le {
        let key = vstd::slice::slice_subrange(b, ks, ke);
        match matching_field_exec(key) {
            Some(field) => {
                if st.assigned >= values.len() {
                    return StepResult::Need(eq + 1, le);
                }
                match &values[st.assigned] {
                    Ok(bits) => {
                        set_field(&mut st.matching, field, *bits);
                        st.assigned = st.assigned + 1;
                    },
                    Err(msg) => {
                        return StepResult::Fail(msg.clone());
                    },
                }
            },
            None => {},
        }
    }
    scan_quotes_exec(b, s, e, st)
}

/// Where parsing a configuration stands.
pub enum ConfigStep {
    /// Parsing finished with this configuration or error message.
    Done(Result<PaletteConfig, String>),
    /// The matching value whose text is the byte range `start..end` of the
    /// input has no parsed bits yet.
    NeedValue { start: usize, end: usize },
    /// A quoted color of 6 or 8 bytes whose two-byte digit pairs would cut a
    /// multi-byte character (slicing the text there panics).
    CharBoundary,
}

/// Parses a palette configuration, using `values[k]` as the bits of the
/// `k`-th matching value met (or the error its float parsing gave).
///
/// Lines are processed in order. Blank lines are skipped. A line that, without
/// its `#` comment and trimmed, is enclosed in `[` `]` opens a section. In the
/// `[matching]` section, a line `key = value` with a known key sets that
/// setting. On every other line, each quoted text that, trimmed and without
/// leading `#`s, has 6 or 8 characters is read as a hex color (alpha 255 when
/// absent). The palette must end up with 1 to 256 colors.
pub fn parse_palette_config(contents: &str, values: &[Result<u32, String>]) -> (r: ConfigStep)
    ensures
        match r {
            ConfigStep::Done(Ok(c)) => spec_parse_config(contents.spec_bytes(), values@)
                == ConfigOutcome::Done(Ok(c@)),
            ConfigStep::Done(Err(m)) => spec_parse_config(contents.spec_bytes(), values@)
                == ConfigOutcome::Done(Err(m@)),
            ConfigStep::NeedValue { start, end } => spec_parse_config(contents.spec_bytes(), values@)
                == ConfigOutcome::Need(start as int, end as int),
            ConfigStep::CharBoundary => spec_parse_config(contents.spec_bytes(), values@) == ConfigOutcome::Split,
        },
{
    let b = contents.as_bytes();
    let n = b.len();
    let mut st = ScanState {
        section_start: 0,
        section_end: 0,
        colors: Vec::new(),
        matching: PaletteMatching::default(),
        assigned: 0,
    };
    assert(st.model(b@) == initial_state()) by {
        assert(b@.subrange(0, 0) =~= Seq::<u8>::empty());
    }
    let mut pos: usize = 0;
    loop
        invariant_except_break
            pos <= n,
            n == b@.len(),
            st.wf(b@),
            b@ == contents.spec_bytes(),
            scan_lines(b@, 0, initial_state(), values@) == scan_lines(b@, pos as int, st.model(b@), values@),
        ensures
            st.wf(b@),
            scan_lines(b@, 0, initial_state(), values@) == ScanStep::Continue(st.model(b@)),
        decreases n - pos,
    {
        if pos >= n {
            break;
        }
        let nl = next_byte_exec(b, pos, n, 10);
        let line_end = if nl < n && nl > pos && b[nl - 1] == 13 {
            nl - 1
        } else {
            nl
        };
        match line_step_exec(b, pos, line_end, &mut st, values) {
            StepResult::Continue => {},
            StepResult::Fail(m) => {
                return ConfigStep::Done(Err(m));
            },
            StepResult::Need(s, e) => {
                return ConfigStep::NeedValue { start: s, end: e };
            },
            StepResult::Split => {
                return ConfigStep::CharBoundary;
            },
        }
        if nl >= n {
            break;
        }
        pos = nl + 1;
    }
    if st.colors.len() == 0 {
        return ConfigStep::Done(Err(owned("palette contains no quoted #RRGGBB colors")));
    }
    if st.colors.len() > 256 {
        return ConfigStep::Done(Err(owned("palette contains more than 256 colors")));
    }
    ConfigStep::Done(Ok(PaletteConfig { colors: st.colors, matching: st.matching }))
}

/// What reading every quoted color of a whole text gives.
pub open spec fn spec_quoted_colors(b: Seq<u8>) -> ConfigOutcome {
    match scan_quotes(b, 0, b.len() as int, false, initial_state()) {
        ScanStep::Continue(st) => if st.colors.len() == 0 {
            ConfigOutcome::Done(Err("palette contains no quoted #RRGGBB colors"@))
        } else if st.colors.len() > 256 {
            ConfigOutcome::Done(Err("palette contains more than 256 colors"@))
        } else {
            ConfigOutcome::Done(Ok(PaletteConfigModel { colors: st.colors, matching: default_matching() }))
        },
        ScanStep::Fail(msg) => ConfigOutcome::Done(Err(msg)),
        ScanStep::Need(s, e) => ConfigOutcome::Need(s, e),
        ScanStep::Split => ConfigOutcome::Split,
    }
}

/// The colors of a palette file read without its structure.
pub enum QuotedColors {
    /// The colors, or the error message.
    Done(Result<Vec<[u8; 4]>, String>),
    /// A quoted color of 6 or 8 bytes whose two-byte digit pairs would cut a
    /// multi-byte character (slicing the text there panics).
    CharBoundary,
}

/// Reads every quoted text of `contents` (lines and sections do not matter)
/// that, trimmed and without leading `#`s, has 6 or 8 characters as a hex
/// color; there must be 1 to 256 of them.
pub fn quoted_palette_colors(contents: &str) -> (r: QuotedColors)
    ensures
        match r {
            QuotedColors::Done(Ok(colors)) => spec_quoted_colors(contents.spec_bytes()) matches ConfigOutcome::Done(
                Ok(m),
            ) && m.colors == colors@,
            QuotedColors::Done(Err(msg)) => spec_quoted_colors(contents.spec_bytes()) == ConfigOutcome::Done(
                Err(msg@),
            ),
            QuotedColors::CharBoundary => spec_quoted_colors(contents.spec_bytes()) == ConfigOutcome::Split,
        },
{
    let b = contents.as_bytes();
    let mut st = ScanState {
        section_start: 0,
        section_end: 0,
        colors: Vec::new(),
        matching: PaletteMatching::default(),
        assigned: 0,
    };
    assert(st.model(b@) == initial_state()) by {
        assert(b@.subrange(0, 0) =~= Seq::<u8>::empty());
    }
    match scan_quotes_exec(b, 0, b.len(), &mut st) {
        StepResult::Continue => {},
        StepResult::Fail(m) => {
            return QuotedColors::Done(Err(m));
        },
        StepResult::Need(_, _) => {
            return QuotedColors::CharBoundary;
        },
        StepResult::Split => {
            return QuotedColors::CharBoundary;
        },
    }
    if st.colors.len() == 0 {
        return QuotedColors::Done(Err(owned("palette contains no quoted #RRGGBB colors")));
    }
    if st.colors.len() > 256 {
        return QuotedColors::Done(Err(owned("palette contains more than 256 colors")));
    }
    QuotedColors::Done(Ok(st.colors))
}

// ---------------------------------------------------------------------------
// Writing a configuration

/// The bytes of a color as written: alpha is left out when it is 255.
pub open spec fn written_color_bytes(c: [u8; 4]) -> Seq<u8> {
    if c[3] == 255 {
        seq![c[0], c[1], c[2]]
    } else {
        seq![c[0], c[1], c[2], c[3]]
    }
}

/// The line of one color: `    "#rrggbb",` or `    "#rrggbbaa",`.
pub open spec fn color_line(c: [u8; 4]) -> Seq<char> {
    "    \"#"@ + hex_lower(written_color_bytes(c)) + "\",\n"@
}

/// The color lines of `colors`, in order.
pub open spec fn color_lines(colors: Seq<[u8; 4]>) -> Seq<char>
    decreases colors.len(),
{
    if colors.len() == 0 {
        Seq::empty()
    } else {
        color_lines(colors.drop_last()) + color_line(colors.last())
    }
}

/// The key under which matching setting `k` is written.
pub open spec fn written_key(k: int) -> Seq<char> {
    if k == 0 {
        "oklab_l"@
    } else if k == 1 {
        "oklab_a"@
    } else if k == 2 {
        "oklab_b"@
    } else if k == 3 {
        "lightness_multiply"@
    } else if k == 4 {
        "lightness_add"@
    } else if k == 5 {
        "chroma_multiply"@
    } else if k == 6 {
        "chroma_add"@
    } else if k == 7 {
        "grey_chroma_threshold"@
    } else {
        "hue_add"@
    }
}

/// The first `n` matching lines, `key = value`, with `texts[k]` the written
/// value of setting `k`.
pub open spec fn matching_lines(texts: Seq<Seq<char>>, n: nat) -> Seq<char>
    decreases n,
{
    if n == 0 {
        Seq::empty()
    } else {
        matching_lines(texts, (n - 1) as nat) + written_key(n - 1) + " = "@ + texts[n - 1] + "\n"@
    }
}

/// The configuration text of `colors`, with `texts` as the written matching
/// values (in the order of the settings).
pub open spec fn spec_serialize_config(colors: Seq<[u8; 4]>, texts: Seq<Seq<char>>) -> Seq<char> {
    "colors = [\n"@ + color_lines(colors) + "]\n\n[matching]\n"@ + matching_lines(texts, 9)
}

fn key_text(k: usize) -> (t: &'static str)
    requires
        k < 9,
    ensures
        t@ == written_key(k as int),
{
    if k == 0 {
        "oklab_l"
    } else if k == 1 {
        "oklab_a"
    } else if k == 2 {
        "oklab_b"
    } else if k == 3 {
        "lightness_multiply"
    } else if k == 4 {
        "lightness_add"
    } else if k == 5 {
        "chroma_multiply"
    } else if k == 6 {
        "chroma_add"
    } else if k == 7 {
        "grey_chroma_threshold"
    } else {
        "hue_add"
    }
}

/// Writes a palette configuration: one quoted lowercase hex color per line in
/// a `colors = [...]` list (alpha written only when it is not 255), then the
/// `[matching]` section with every setting. `value_texts[k]` is the written
/// form of matching setting `k`, in the order of [`PaletteMatching`]'s fields.
pub fn serialize_palette_config(config: &PaletteConfig, value_texts: &[String; 9]) -> (out: String)
    ensures
        out@ == spec_serialize_config(config.colors@, value_texts@.map_values(|t: String| t@)),
{
    let mut out = String::from_str("colors = [\n");
    let n = config.colors.len();
    let mut i: usize = 0;
    assert(config.colors@.take(0) =~= Seq::<[u8; 4]>::empty());
    while i < n
        invariant
            i <= n,
            n == config.colors@.len(),
            out@ == "colors = [\n"@ + color_lines(config.colors@.take(i as int)),
        decreases n - i,
    {
        let c = config.colors[i];
        out.append("    \"#");
        let hex = if c[3] == 255 {
            let rgb = [c[0], c[1], c[2]];
            assert(rgb@ =~= written_color_bytes(c));
            hex_encode(&rgb)
        } else {
            assert(c@ =~= written_color_bytes(c));
            hex_encode(&c)
        };
        out.append(hex.as_str());
        out.append("\",\n");
        assert(config.colors@.take(i + 1).drop_last() =~= config.colors@.take(i as int));
        assert(out@ =~= "colors = [\n"@ + color_lines(config.colors@.take(i + 1)));
        i = i + 1;
    }
    assert(config.colors@.take(n as int) =~= config.colors@);
    out.append("]\n\n[matching]\n");
    let ghost texts = value_texts@.map_values(|t: String| t@);
    let ghost head = out@;
    let mut k: usize = 0;
    while k < 9
        invariant
            k <= 9,
            texts == value_texts@.map_values(|t: String| t@),
            out@ == head + matching_lines(texts, k as nat),
        decreases 9 - k,
    {
        out.append(key_text(k));
        out.append(" = ");
        out.append(value_texts[k].as_str());
        out.append("\n");
        assert(out@ =~= head + matching_lines(texts, (k + 1) as nat));
        k = k + 1;
    }
    out
}


/// `b2` is `b` with ASCII capital letters made small.
pub open spec fn lowered(b: Seq<u8>, b2: Seq<u8>) -> bool {
    b2.len() == b.len() && forall|k: int| 0 <= k < b.len() ==> #[trigger] b2[k] == ascii_lower(b[k])
}

proof fn lemma_lowered_subrange(b: Seq<u8>, b2: Seq<u8>, e: int)
    requires
        lowered(b, b2),
        0 <= e <= b.len(),
    ensures
        lowered(b.subrange(0, e), b2.subrange(0, e)),
{
    assert forall|k: int| 0 <= k < e implies #[trigger] b2.subrange(0, e)[k] == ascii_lower(
        b.subrange(0, e)[k],
    ) by {
        assert(b2[k] == ascii_lower(b[k]));
    }
}

proof fn lemma_ws_len_lowered(p: Seq<u8>, p2: Seq<u8>, i: int)
    requires
        lowered(p, p2),
    ensures
        ws_len(p, i) == ws_len(p2, i),
{
    if 0 <= i < p.len() {
        assert(p2[i] == ascii_lower(p[i]));
        if i + 1 < p.len() {
            assert(p2[i + 1] == ascii_lower(p[i + 1]));
        }
        if i + 2 < p.len() {
            assert(p2[i + 2] == ascii_lower(p[i + 2]));
        }
    }
}

proof fn lemma_trim_start_lowered(b: Seq<u8>, b2: Seq<u8>, s: int, e: int)
    requires
        lowered(b, b2),
    ensures
        trim_start_from(b, s, e) == trim_start_from(b2, s, e),
    decreases e - s,
{
    if 0 <= s < e <= b.len() {
        lemma_lowered_subrange(b, b2, e);
        lemma_ws_len_lowered(b.subrange(0, e), b2.subrange(0, e), s);
        if ws_len(b.subrange(0, e), s) > 0 {
            lemma_trim_start_lowered(b, b2, s + ws_len(b.subrange(0, e), s), e);
        }
    }
}

proof fn lemma_trim_end_lowered(b: Seq<u8>, b2: Seq<u8>, s: int, e: int)
    requires
        lowered(b, b2),
    ensures
        trim_end_from(b, s, e) == trim_end_from(b2, s, e),
    decreases e - s,
{
    if 0 <= s < e <= b.len() {
        lemma_lowered_subrange(b, b2, e);
        assert(b2[e - 1] == ascii_lower(b[e - 1]));
        lemma_ws_len_lowered(b.subrange(0, e), b2.subrange(0, e), e - 2);
        lemma_ws_len_lowered(b.subrange(0, e), b2.subrange(0, e), e - 3);
        assert(ws_len_before(b, s, e) == ws_len_before(b2, s, e));
        if ws_len_before(b, s, e) > 0 {
            lemma_trim_end_lowered(b, b2, s, e - ws_len_before(b, s, e));
        }
    }
}

proof fn lemma_skip_hashes_lowered(b: Seq<u8>, b2: Seq<u8>, s: int, e: int)
    requires
        lowered(b, b2),
        e <= b.len(),
        0 <= s,
    ensures
        skip_hashes(b, s, e) == skip_hashes(b2, s, e),
    decreases e - s,
{
    if s < e {
        assert(b2[s] == ascii_lower(b[s]));
        if b[s] == 35 {
            lemma_skip_hashes_lowered(b, b2, s + 1, e);
        }
    }
}

proof fn lemma_trim_start_bounds(b: Seq<u8>, s: int, e: int)
    requires
        s <= e,
    ensures
        s <= trim_start_from(b, s, e) <= e,
    decreases e - s,
{
    if 0 <= s < e <= b.len() && ws_len(b.subrange(0, e), s) > 0 {
        assert(ws_len(b.subrange(0, e), s) <= e - s);
        lemma_trim_start_bounds(b, s + ws_len(b.subrange(0, e), s), e);
    }
}

proof fn lemma_trim_end_bounds(b: Seq<u8>, s: int, e: int)
    requires
        s <= e,
    ensures
        s <= trim_end_from(b, s, e) <= e,
    decreases e - s,
{
    if 0 <= s < e <= b.len() && ws_len_before(b, s, e) > 0 {
        lemma_trim_end_bounds(b, s, e - ws_len_before(b, s, e));
    }
}

proof fn lemma_skip_hashes_bounds(b: Seq<u8>, s: int, e: int)
    requires
        s <= e,
    ensures
        s <= skip_hashes(b, s, e) <= e,
    decreases e - s,
{
    if s < e && b[s] == 35 {
        lemma_skip_hashes_bounds(b, s + 1, e);
    }
}

proof fn lemma_trim_range_bounds(b: Seq<u8>, s: int, e: int)
    requires
        s <= e,
    ensures
        s <= trim_start_from(b, s, e) <= trim_end_from(b, trim_start_from(b, s, e), e) <= e,
{
    lemma_trim_start_bounds(b, s, e);
    lemma_trim_end_bounds(b, trim_start_from(b, s, e), e);
}

/// A quoted color reads the same whatever the case of its hex digits:
/// `"#FF8000"` and `"#ff8000"` are the same color.
pub proof fn lemma_hex_color_ignores_case(b: Seq<u8>, b2: Seq<u8>, s: int, e: int)
    requires
        lowered(b, b2),
        0 <= s <= e <= b.len(),
    ensures
        spec_hex_color(b, s, e) == spec_hex_color(b2, s, e),
{
    lemma_trim_start_lowered(b, b2, s, e);
    let ts = trim_start_from(b, s, e);
    lemma_trim_end_lowered(b, b2, ts, e);
    let te = trim_end_from(b, ts, e);
    lemma_trim_range_bounds(b, s, e);
    lemma_skip_hashes_lowered(b, b2, ts, te);
    let c = skip_hashes(b, ts, te);
    lemma_skip_hashes_bounds(b, ts, te);
    let n = te - c;
    if n == 6 || n == 8 {
        assert forall|k: int| 0 <= k < n implies #[trigger] b2[c + k] == ascii_lower(b[c + k]) by {}
        lemma_hex_pair_ignores_case(b[c], b[c + 1]);
        lemma_hex_pair_ignores_case(b2[c], b2[c + 1]);
        lemma_hex_pair_ignores_case(b[c + 2], b[c + 3]);
        lemma_hex_pair_ignores_case(b2[c + 2], b2[c + 3]);
        lemma_hex_pair_ignores_case(b[c + 4], b[c + 5]);
        lemma_hex_pair_ignores_case(b2[c + 4], b2[c + 5]);
        if n == 8 {
            lemma_hex_pair_ignores_case(b[c + 6], b[c + 7]);
            lemma_hex_pair_ignores_case(b2[c + 6], b2[c + 7]);
        }
        assert(b2[c] == ascii_lower(b[c]));
        assert(b2[c + 1] == ascii_lower(b[c + 1]));
        assert(b2[c + 2] == ascii_lower(b[c + 2]));
        assert(b2[c + 3] == ascii_lower(b[c + 3]));
        assert(b2[c + 4] == ascii_lower(b[c + 4]));
        assert(b2[c + 5] == ascii_lower(b[c + 5]));
        if n == 8 {
            assert(b2[c + 6] == ascii_lower(b[c + 6]));
            assert(b2[c + 7] == ascii_lower(b[c + 7]));
        }
    }
}

} // verus!
