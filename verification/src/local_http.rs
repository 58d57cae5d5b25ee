//! The small HTTP/1.1 servers of the lab, player and viewer tools: reading a
//! request head, choosing what to answer, and framing the answer.
//!
//! A request head is read through its UTF-8 bytes (the tools decode what
//! arrived with `String::from_utf8_lossy` first). Every byte given a meaning
//! here (`\r`, `\n`, `:`, `+`, digits, letters) is ASCII, and whitespace is
//! every character with the Unicode `White_Space` property, matched by its
//! UTF-8 encoding, so this byte-level reading agrees with `str::lines`,
//! `str::split_whitespace` and `str::trim`.

use vstd::prelude::*;
use vstd::string::StringSliceAdditionalSpecFns;
use vstd::utf8::encode_utf8;
use crate::lab_html::{decimal_text, find_from, find_from_spec, first_occurrence_at, push_count};
use crate::palette_config::{
    lemma_next_byte_range, next_byte, next_byte_exec, trim_range, trim_range_exec, trim_start_from,
    ws_len, ws_len_exec,
};
use crate::text::{bytes_eq, bytes_start_with, parse_u32, parse_usize, spec_parse_u32, spec_parse_usize};

verus! {

// ---------------------------------------------------------------------------
// The end of the head

/// `\r\n\r\n`, the blank line that ends a request head.
pub open spec fn head_terminator() -> Seq<u8> {
    seq![13u8, 10, 13, 10]
}

/// Length of the request head within the bytes received so far: everything up
/// to and including the first `\r\n\r\n`, once it has arrived.
pub open spec fn head_len(received: Seq<u8>) -> Option<int> {
    match find_from_spec(received, head_terminator(), 0) {
        Some(i) => Some(i + 4),
        None => None,
    }
}

/// The length of the request head, if its terminating blank line has arrived.
pub fn header_end(received: &[u8]) -> (r: Option<usize>)
    ensures
        match r {
            Some(n) => head_len(received@) == Some(n as int) && n <= received@.len(),
            None => head_len(received@) is None,
        },
{
    let n = received.len();
    let pattern: [u8; 4] = [13, 10, 13, 10];
    let pat = pattern.as_slice();
    assert(pat@ =~= head_terminator());
    match find_from(received, pat, 0) {
        Some(i) => {
            proof {
                assert(find_from_spec(received@, pat@, 0) == Some(i as int));
                assert(find_from_spec(received@, head_terminator(), 0) == Some(i as int));
                let c = choose|c: int| first_occurrence_at(received@, head_terminator(), 0, c);
                assert(first_occurrence_at(received@, head_terminator(), 0, c));
                assert(i as int == c);
                assert(head_terminator().len() == 4);
                assert(i + 4 <= n);
            }
            Some(i + 4)
        },
        None => None,
    }
}

// ---------------------------------------------------------------------------
// Lines

/// End of the line that starts at `s`: the next `\n`, or the end of the text.
pub open spec fn line_break(b: Seq<u8>, s: int) -> int {
    next_byte(b, s, b.len() as int, 10)
}

/// End of the content of the line that starts at `s`, as `str::lines` gives
/// it: before the `\n`, and before one `\r` ahead of that `\n`; a last line
/// without `\n` keeps a final `\r`.
pub open spec fn line_content_end(b: Seq<u8>, s: int) -> int {
    let k = line_break(b, s);
    if k < b.len() && k > s && b[k - 1] == 13 {
        k - 1
    } else {
        k
    }
}

pub proof fn lemma_line_bounds(b: Seq<u8>, s: int)
    requires
        0 <= s < b.len(),
    ensures
        s <= line_content_end(b, s) <= line_break(b, s) <= b.len(),
        line_break(b, s) < b.len() ==> b[line_break(b, s)] == 10,
{
    lemma_next_byte_range(b, s, b.len() as int, 10);
    lemma_next_byte_hit(b, s, b.len() as int, 10);
}

pub proof fn lemma_next_byte_hit(b: Seq<u8>, s: int, e: int, x: u8)
    requires
        0 <= s <= e <= b.len(),
    ensures
        next_byte(b, s, e, x) < e ==> b[next_byte(b, s, e, x)] == x,
    decreases e - s,
{
    if s < e && b[s] != x {
        lemma_next_byte_hit(b, s + 1, e, x);
    }
}

fn line_bounds(b: &[u8], s: usize) -> (r: (usize, usize))
    requires
        s < b@.len(),
    ensures
        r.0 as int == line_content_end(b@, s as int),
        r.1 as int == line_break(b@, s as int),
        s <= r.0 <= r.1 <= b@.len(),
{
    proof {
        lemma_line_bounds(b@, s as int);
    }
    let k = next_byte_exec(b, s, b.len(), 10);
    if k < b.len() && k > s && b[k - 1] == 13 {
        (k - 1, k)
    } else {
        (k, k)
    }
}

// ---------------------------------------------------------------------------
// Content-Length

/// `content-length`.
pub open spec fn content_length_name() -> Seq<u8> {
    seq![99u8, 111, 110, 116, 101, 110, 116, 45, 108, 101, 110, 103, 116, 104]
}

/// The byte with an ASCII capital letter made small.
pub open spec fn ascii_lower(x: u8) -> u8 {
    if 65 <= x <= 90 {
        (x + 32) as u8
    } else {
        x
    }
}

/// The name is `content-length` in any mix of ASCII case.
pub open spec fn is_content_length_name(name: Seq<u8>) -> bool {
    name.len() == 14 && forall|i: int| 0 <= i < 14 ==> ascii_lower(#[trigger] name[i])
        == content_length_name()[i]
}

/// The `Content-Length` that the header line `b[s..e]` gives, if it gives
/// one: the text before its first `:` is `content-length` in any ASCII case,
/// and the text after it, trimmed of whitespace, is a decimal `usize`.
pub open spec fn header_line_length(b: Seq<u8>, s: int, e: int) -> Option<usize> {
    let c = next_byte(b, s, e, 58);
    if c >= e || !is_content_length_name(b.subrange(s, c)) {
        None
    } else {
        let (vs, ve) = trim_range(b, c + 1, e);
        spec_parse_usize(b.subrange(vs, ve))
    }
}

/// The length given by the first line, from the line at `s` on, that gives one.
pub open spec fn content_length_from(b: Seq<u8>, s: int) -> Option<usize>
    decreases b.len() + 1 - s,
{
    if s < 0 || s >= b.len() {
        None
    } else {
        proof {
            lemma_line_bounds(b, s);
        }
        match header_line_length(b, s, line_content_end(b, s)) {
            Some(n) => Some(n),
            None => content_length_from(b, line_break(b, s) + 1),
        }
    }
}

/// The body length that a request head declares: that of its first line
/// giving a `Content-Length`, or 0 when none does.
pub open spec fn declared_content_length(head: Seq<u8>) -> usize {
    match content_length_from(head, 0) {
        Some(n) => n,
        None => 0,
    }
}

fn is_content_length_name_exec(b: &[u8], s: usize, e: usize) -> (r: bool)
    requires
        s <= e <= b@.len(),
    ensures
        r == is_content_length_name(b@.subrange(s as int, e as int)),
{
    if e - s != 14 {
        return false;
    }
    let name: [u8; 14] = [99, 111, 110, 116, 101, 110, 116, 45, 108, 101, 110, 103, 116, 104];
    assert(name@ =~= content_length_name());
    let ghost part = b@.subrange(s as int, e as int);
    let mut i: usize = 0;
    while i < 14
        invariant
            i <= 14,
            e == s + 14,
            e <= b@.len(),
            part == b@.subrange(s as int, e as int),
            name@ == content_length_name(),
            forall|j: int| 0 <= j < i ==> ascii_lower(#[trigger] part[j]) == content_length_name()[j],
        decreases 14 - i,
    {
        let x = b[s + i];
        let lower = if 65 <= x && x <= 90 {
            x + 32
        } else {
            x
        };
        assert(part[i as int] == x);
        if lower != name[i] {
            return false;
        }
        i = i + 1;
    }
    true
}

fn header_line_length_exec(b: &[u8], s: usize, e: usize) -> (r: Option<usize>)
    requires
        s <= e <= b@.len(),
    ensures
        r == header_line_length(b@, s as int, e as int),
{
    proof {
        lemma_next_byte_range(b@, s as int, e as int, 58);
    }
    let c = next_byte_exec(b, s, e, 58);
    if c >= e || !is_content_length_name_exec(b, s, c) {
        return None;
    }
    let (vs, ve) = trim_range_exec(b, c + 1, e);
    let value = vstd::slice::slice_subrange(b, vs, ve);
    parse_usize(value)
}

/// The body length that the request head declares (see
/// [`declared_content_length`]).
pub fn content_length(head: &[u8]) -> (r: usize)
    ensures
        r == declared_content_length(head@),
{
    let n = head.len();
    let mut s: usize = 0;
    while s < n
        invariant
            s <= n,
            n == head@.len(),
            content_length_from(head@, 0) == content_length_from(head@, s as int),
        decreases n - s,
    {
        let (le, lb) = line_bounds(head, s);
        match header_line_length_exec(head, s, le) {
            Some(v) => {
                return v;
            },
            None => {},
        }
        if lb >= n {
            assert(content_length_from(head@, lb as int + 1) is None);
            return 0;
        }
        s = lb + 1;
    }
    0
}

// ---------------------------------------------------------------------------
// The request target

/// First index in `s..e` where a whitespace character starts, or `e`.
pub open spec fn word_end(b: Seq<u8>, s: int, e: int) -> int
    decreases e - s,
{
    if s >= e {
        e
    } else if ws_len(b.subrange(0, e), s) > 0 {
        s
    } else {
        word_end(b, s + 1, e)
    }
}

/// Bounds of the request target in the head `b`: the second
/// whitespace-separated word of its first line, when there is one.
pub open spec fn target_bounds(b: Seq<u8>) -> Option<(int, int)> {
    let le = line_content_end(b, 0);
    let s1 = trim_start_from(b, 0, le);
    if s1 >= le {
        None
    } else {
        let e1 = word_end(b, s1, le);
        let s2 = trim_start_from(b, e1, le);
        if s2 >= le {
            None
        } else {
            Some((s2, word_end(b, s2, le)))
        }
    }
}

/// The path a request head asks for: its request target, or `/` when the
/// first line has no second word.
pub open spec fn request_path_spec(head: Seq<u8>) -> Seq<u8> {
    match target_bounds(head) {
        Some((s, e)) => head.subrange(s, e),
        None => seq![47u8],
    }
}

proof fn lemma_word_end_range(b: Seq<u8>, s: int, e: int)
    requires
        s <= e,
    ensures
        s <= word_end(b, s, e) <= e,
    decreases e - s,
{
    if s < e && ws_len(b.subrange(0, e), s) == 0 {
        lemma_word_end_range(b, s + 1, e);
    }
}

fn word_end_exec(b: &[u8], s: usize, e: usize) -> (r: usize)
    requires
        s <= e <= b@.len(),
    ensures
        r as int == word_end(b@, s as int, e as int),
        s <= r <= e,
{
    proof {
        lemma_word_end_range(b@, s as int, e as int);
    }
    let mut i = s;
    while i < e
        invariant
            s <= i <= e <= b@.len(),
            word_end(b@, s as int, e as int) == word_end(b@, i as int, e as int),
        decreases e - i,
    {
        if ws_len_exec(b, i, e) > 0 {
            return i;
        }
        i = i + 1;
    }
    i
}

/// The path that the request head asks for (see [`request_path_spec`]).
pub fn request_path(head: &[u8]) -> (path: Vec<u8>)
    ensures
        path@ == request_path_spec(head@),
{
    let le: usize = if head.len() == 0 {
        0
    } else {
        line_bounds(head, 0).0
    };
    assert(le as int == line_content_end(head@, 0)) by {
        if head@.len() == 0 {
            lemma_next_byte_range(head@, 0, 0, 10);
        }
    }
    let s1 = trim_range_exec(head, 0, le).0;
    if s1 >= le {
        return vec![47u8];
    }
    let e1 = word_end_exec(head, s1, le);
    let s2 = trim_range_exec(head, e1, le).0;
    if s2 >= le {
        return vec![47u8];
    }
    let e2 = word_end_exec(head, s2, le);
    vstd::slice::slice_to_vec(vstd::slice::slice_subrange(head, s2, e2))
}

// ---------------------------------------------------------------------------
// Choosing the answer

/// A page of the combined palette and converter lab.
#[derive(Clone, Copy, Debug, PartialEq, Eq, Structural)]
pub enum LabPage {
    Shell,
    Palette,
    Converter,
    NotFound,
}

/// What the lab answers for a path.
pub open spec fn lab_page_spec(path: Seq<u8>) -> LabPage {
    if path == encode_utf8("/"@) {
        LabPage::Shell
    } else if path == encode_utf8("/palette"@) {
        LabPage::Palette
    } else if path == encode_utf8("/converter"@) {
        LabPage::Converter
    } else {
        LabPage::NotFound
    }
}

fn path_is(path: &[u8], name: &str) -> (r: bool)
    ensures
        r == (path@ == encode_utf8(name@)),
{
    bytes_eq(path, name.as_bytes())
}

fn path_starts_with(path: &[u8], prefix: &str) -> (r: bool)
    ensures
        r == (encode_utf8(prefix@).len() <= path@.len() && path@.subrange(
            0,
            encode_utf8(prefix@).len() as int,
        ) == encode_utf8(prefix@)),
{
    bytes_start_with(path, prefix.as_bytes())
}

/// The lab page for a path: `/`, `/palette` and `/converter`; anything else is
/// not found.
pub fn lab_page(path: &[u8]) -> (page: LabPage)
    ensures
        page == lab_page_spec(path@),
{
    if path_is(path, "/") {
        LabPage::Shell
    } else if path_is(path, "/palette") {
        LabPage::Palette
    } else if path_is(path, "/converter") {
        LabPage::Converter
    } else {
        LabPage::NotFound
    }
}

/// The palette lab serves its page at `/` only.
pub fn palette_lab_serves_page(path: &[u8]) -> (r: bool)
    ensures
        r == (path@ == encode_utf8("/"@)),
{
    path_is(path, "/")
}

/// The image viewer sends the image for any path starting with `/image.ipsi`
/// (a query string may follow) and its page otherwise.
pub fn viewer_serves_image(path: &[u8]) -> (r: bool)
    ensures
        r == (encode_utf8("/image.ipsi"@).len() <= path@.len() && path@.subrange(
            0,
            encode_utf8("/image.ipsi"@).len() as int,
        ) == encode_utf8("/image.ipsi"@)),
{
    path_starts_with(path, "/image.ipsi")
}

/// The player sends the recording for any path starting with `/recording.ipsc`
/// and its page otherwise.
pub fn player_serves_recording(path: &[u8]) -> (r: bool)
    ensures
        r == (encode_utf8("/recording.ipsc"@).len() <= path@.len() && path@.subrange(
            0,
            encode_utf8("/recording.ipsc"@).len() as int,
        ) == encode_utf8("/recording.ipsc"@)),
{
    path_starts_with(path, "/recording.ipsc")
}

/// The player's frame rate from its optional second argument: the argument
/// when it is a whole number from 1 to 60, else 5.
pub fn player_fps(arg: Option<&str>) -> (fps: u32)
    ensures
        fps == match arg {
            Some(a) => match spec_parse_u32(a.spec_bytes()) {
                Some(v) => if 1 <= v <= 60 {
                    v
                } else {
                    5
                },
                None => 5,
            },
            None => 5,
        },
{
    match arg {
        Some(a) => match parse_u32(a.as_bytes()) {
            Some(v) => if 1 <= v && v <= 60 {
                v
            } else {
                5
            },
            None => 5,
        },
        None => 5,
    }
}

/// What the image viewer does while no request is waiting.
#[derive(Clone, Copy, Debug, PartialEq, Eq, Structural)]
pub enum ViewerIdle {
    /// The image was served and nothing more came for a moment: done.
    Finished,
    /// A minute passed without any request for the image: give up.
    GiveUp,
    /// Keep waiting.
    Wait,
}

/// The viewer's choice after `idle_nanos` nanoseconds without a request:
/// finished once the image was served and more than 750 ms passed, given up
/// when it was never served and more than 60 s passed, else waiting.
pub fn viewer_idle(served_image: bool, idle_nanos: u128) -> (r: ViewerIdle)
    ensures
        r == (if served_image && idle_nanos > 750_000_000 {
            ViewerIdle::Finished
        } else if !served_image && idle_nanos > 60_000_000_000 {
            ViewerIdle::GiveUp
        } else {
            ViewerIdle::Wait
        }),
{
    if served_image && idle_nanos > 750_000_000 {
        ViewerIdle::Finished
    } else if !served_image && idle_nanos > 60_000_000_000 {
        ViewerIdle::GiveUp
    } else {
        ViewerIdle::Wait
    }
}

// ---------------------------------------------------------------------------
// Framing the answer

/// The head of a `200 OK` answer whose body of `content_length` bytes follows
/// it; the server closes the connection after the body.
pub open spec fn ok_head_spec(content_type: Seq<char>, content_length: nat) -> Seq<char> {
    "HTTP/1.1 200 OK\r\nContent-Type: "@ + content_type + "\r\nContent-Length: "@ + decimal_text(
        content_length,
    ) + "\r\nCache-Control: no-store\r\nConnection: close\r\n\r\n"@
}

/// The head of a `200 OK` answer (see [`ok_head_spec`]).
pub fn ok_response_head(content_type: &str, content_length: usize) -> (head: String)
    ensures
        head@ == ok_head_spec(content_type@, content_length as nat),
{
    let mut head = String::from_str("HTTP/1.1 200 OK\r\nContent-Type: ");
    head.append(content_type);
    head.append("\r\nContent-Length: ");
    push_count(&mut head, content_length);
    head.append("\r\nCache-Control: no-store\r\nConnection: close\r\n\r\n");
    head
}

/// The whole `404 Not Found` answer, with the body `not found`.
pub open spec fn not_found_spec() -> Seq<char> {
    "HTTP/1.1 404 Not Found\r\nContent-Type: text/plain; charset=utf-8\r\nContent-Length: "@
        + decimal_text(9) + "\r\nConnection: close\r\n\r\nnot found"@
}

/// The whole `404 Not Found` answer (see [`not_found_spec`]).
pub fn not_found_response() -> (r: String)
    ensures
        r@ == not_found_spec(),
{
    let mut r = String::from_str(
        "HTTP/1.1 404 Not Found\r\nContent-Type: text/plain; charset=utf-8\r\nContent-Length: ",
    );
    push_count(&mut r, 9);
    r.append("\r\nConnection: close\r\n\r\nnot found");
    r
}

} // verus!
