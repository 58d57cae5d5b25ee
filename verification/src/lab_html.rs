//! Pages served by the local IPSC tools, and extraction of embedded pages.

use vstd::prelude::*;
use vstd::string::{StringExecFns, StringSliceAdditionalSpecFns};
use vstd::utf8::{
    encode_utf8, encode_utf8_valid_utf8, is_char_boundary, is_char_boundary_iff_not_is_continuation_byte,
    is_char_boundary_start_end_of_seq, valid_utf8, valid_utf8_split,
};
use crate::text::owned;

verus! {

/// The page of the combined palette and converter lab server.
pub const LAB_SHELL_HTML: &'static str = r#"<!doctype html>
<html lang="en">
<head>
  <meta charset="utf-8">
  <meta name="viewport" content="width=device-width, initial-scale=1">
  <title>IPSC Lab</title>
  <style>
    :root { color-scheme: dark; font-family: Arial, sans-serif; background: #101217; color: #edf2f7; }
    body { margin: 0; min-height: 100vh; display: grid; grid-template-rows: auto 1fr; }
    nav { display: flex; gap: 8px; padding: 10px 12px; border-bottom: 1px solid #2d3441; background: #171b23; }
    button { border: 1px solid #43516a; border-radius: 5px; background: #263245; color: #f0f5ff; padding: 8px 12px; font: inherit; cursor: pointer; }
    button.active { background: #d8e8ff; color: #06101f; border-color: #d8e8ff; font-weight: 700; }
    iframe { width: 100%; height: 100%; border: 0; display: none; }
    iframe.active { display: block; }
  </style>
</head>
<body>
  <nav>
    <button id="paletteTab" class="active" type="button">Palette</button>
    <button id="converterTab" type="button">Converter</button>
  </nav>
  <iframe id="paletteFrame" class="active" src="/palette"></iframe>
  <iframe id="converterFrame" src="/converter"></iframe>
  <script>
    const tabs = [
      [document.getElementById("paletteTab"), document.getElementById("paletteFrame")],
      [document.getElementById("converterTab"), document.getElementById("converterFrame")],
    ];
    for (const [button, frame] of tabs) {
      button.addEventListener("click", () => {
        for (const [otherButton, otherFrame] of tabs) {
          otherButton.classList.toggle("active", otherButton === button);
          otherFrame.classList.toggle("active", otherFrame === frame);
        }
      });
    }
  </script>
</body>
</html>"#;

/// The page of the exported static palette and converter lab.
pub const EXPORTED_LAB_SHELL_HTML: &'static str = r#"<!doctype html>
<html lang="en">
<head>
  <meta charset="utf-8">
  <meta name="viewport" content="width=device-width, initial-scale=1">
  <title>IPSC Lab</title>
  <style>
    :root { color-scheme: dark; font-family: Arial, sans-serif; background: #101217; color: #edf2f7; }
    body { margin: 0; min-height: 100vh; display: grid; grid-template-rows: auto 1fr; }
    nav { display: flex; gap: 8px; padding: 10px 12px; border-bottom: 1px solid #2d3441; background: #171b23; }
    button { border: 1px solid #43516a; border-radius: 5px; background: #263245; color: #f0f5ff; padding: 8px 12px; font: inherit; cursor: pointer; }
    button.active { background: #d8e8ff; color: #06101f; border-color: #d8e8ff; font-weight: 700; }
    iframe { width: 100%; height: 100%; border: 0; display: none; }
    iframe.active { display: block; }
  </style>
</head>
<body>
  <nav>
    <button id="paletteTab" class="active" type="button">Palette</button>
    <button id="converterTab" type="button">Converter</button>
  </nav>
  <iframe id="paletteFrame" class="active" src="palette.html"></iframe>
  <iframe id="converterFrame" src="converter.html"></iframe>
  <script>
    const tabs = [
      [document.getElementById("paletteTab"), document.getElementById("paletteFrame")],
      [document.getElementById("converterTab"), document.getElementById("converterFrame")],
    ];
    for (const [button, frame] of tabs) {
      button.addEventListener("click", () => {
        for (const [otherButton, otherFrame] of tabs) {
          otherButton.classList.toggle("active", otherButton === button);
          otherFrame.classList.toggle("active", otherFrame === frame);
        }
      });
    }
  </script>
</body>
</html>"#;

/// Appends the decimal digits of a count to `out`.
pub fn push_count(out: &mut String, v: usize)
    ensures
        final(out)@ == old(out)@ + decimal_text(v as nat),
    decreases v,
{
    if v >= 10 {
        push_count(out, v / 10);
    }
    out.append(digit_text((v % 10) as u32));
    assert(decimal_text(v as nat) =~= (if v < 10 {
        seq![(48 + v) as char]
    } else {
        decimal_text((v / 10) as nat) + seq![(48 + v % 10) as char]
    }));
}

/// The page of the IPSI image viewer.
pub const VIEWER_HTML: &'static str = r#"<!doctype html>
<html lang="en">
<head>
  <meta charset="utf-8">
  <meta name="viewport" content="width=device-width, initial-scale=1">
  <title>IPSI Image Viewer</title>
  <style>
    :root { color-scheme: dark; font-family: Arial, sans-serif; background: #111318; color: #eef3f8; }
    body { margin: 0; min-height: 100vh; display: grid; grid-template-rows: auto 1fr; }
    header { padding: 12px 16px; background: #1b2029; border-bottom: 1px solid #303847; display: flex; gap: 14px; align-items: center; flex-wrap: wrap; }
    main { display: grid; place-items: center; padding: 16px; }
    canvas { width: min(100%, 720px); height: auto; max-height: calc(100vh - 96px); image-rendering: pixelated; image-rendering: crisp-edges; background: #050608; border: 1px solid #303847; }
    span { color: #b8c5d6; }
  </style>
</head>
<body>
  <header>
    <strong>IPSI Image Viewer</strong>
    <span id="status">loading</span>
  </header>
  <main>
    <canvas id="screen" width="16" height="16"></canvas>
  </main>
  <script>
    const canvas = document.getElementById("screen");
    const ctx = canvas.getContext("2d");
    const status = document.getElementById("status");
    ctx.imageSmoothingEnabled = false;

    function readU16LE(bytes, offset) {
      return bytes[offset] | (bytes[offset + 1] << 8);
    }

    function drawImage(bytes) {
      if (bytes[0] !== 0x49 || bytes[1] !== 0x50 || bytes[2] !== 0x53 || bytes[3] !== 0x49) {
        throw new Error("Not an IPSI image");
      }

      const width = readU16LE(bytes, 5);
      const height = readU16LE(bytes, 7);
      const paletteLength = readU16LE(bytes, 9);
      let cursor = 11;
      const palette = [];
      for (let i = 0; i < paletteLength; i++) {
        palette.push([bytes[cursor], bytes[cursor + 1], bytes[cursor + 2], bytes[cursor + 3]]);
        cursor += 4;
      }

      canvas.width = width;
      canvas.height = height;
      const image = ctx.createImageData(width, height);
      for (let i = 0; i < width * height; i++) {
        const color = palette[bytes[cursor + i]] || palette[0] || [0, 0, 0, 255];
        const out = i * 4;
        image.data[out] = color[0];
        image.data[out + 1] = color[1];
        image.data[out + 2] = color[2];
        image.data[out + 3] = color[3];
      }
      ctx.putImageData(image, 0, 0);
      status.textContent = `${width}x${height} - ${paletteLength} colors`;
    }

    fetch("/image.ipsi", { cache: "no-store" })
      .then(response => response.arrayBuffer())
      .then(buffer => drawImage(new Uint8Array(buffer)))
      .catch(error => {
        console.error(error);
        status.textContent = error.toString();
      });
  </script>
</body>
</html>"#;

/// The page of the IPSC recording player, up to its frame rate.
pub const PLAYER_HTML_HEAD: &'static str = r#"<!doctype html>
<html lang="en">
<head>
  <meta charset="utf-8">
  <meta name="viewport" content="width=device-width, initial-scale=1">
  <title>IPSC Player</title>
  <style>
    :root { color-scheme: dark; font-family: Arial, sans-serif; background: #111318; color: #eef3f8; }
    body { margin: 0; min-height: 100vh; display: grid; grid-template-rows: auto 1fr; }
    header { padding: 12px 16px; background: #1b2029; border-bottom: 1px solid #303847; display: flex; gap: 14px; align-items: center; flex-wrap: wrap; }
    main { display: grid; place-items: center; padding: 16px; }
    canvas { width: min(100%, 960px); height: auto; max-height: calc(100vh - 96px); image-rendering: pixelated; image-rendering: crisp-edges; background: #050608; border: 1px solid #303847; }
    button { background: #273449; color: #eef3f8; border: 1px solid #647280; padding: 6px 10px; }
    span { color: #b8c5d6; }
  </style>
</head>
<body>
  <header>
    <strong>IPSC Player</strong>
    <button id="toggle">pause</button>
    <span id="status">loading</span>
  </header>
  <main>
    <canvas id="screen" width="128" height="128"></canvas>
  </main>
  <script>
    const FPS = "#;

/// The page of the IPSC recording player, after its frame rate.
pub const PLAYER_HTML_TAIL: &'static str = r#";
    const canvas = document.getElementById("screen");
    const ctx = canvas.getContext("2d");
    const status = document.getElementById("status");
    const toggle = document.getElementById("toggle");
    ctx.imageSmoothingEnabled = false;

    let width = 0;
    let height = 0;
    let tileSize = 8;
    let palette = [];
    let frames = [];
    let frameIndex = 0;
    let playing = true;
    let framebuffer = new Uint8Array(0);
    let image = ctx.createImageData(1, 1);

    function readU16LE(bytes, offset) {
      return bytes[offset] | (bytes[offset + 1] << 8);
    }

    function readU32LE(bytes, offset) {
      return bytes[offset] | (bytes[offset + 1] << 8) | (bytes[offset + 2] << 16) | (bytes[offset + 3] << 24);
    }

    function parseRecording(bytes) {
      if (bytes[0] !== 0x49 || bytes[1] !== 0x50 || bytes[2] !== 0x53 || bytes[3] !== 0x43) {
        throw new Error("Not an IPSC recording");
      }

      width = readU16LE(bytes, 5);
      height = readU16LE(bytes, 7);
      tileSize = bytes[9];
      const paletteLength = readU16LE(bytes, 10);
      let cursor = 12;

      palette = [];
      for (let i = 0; i < paletteLength; i++) {
        palette.push([bytes[cursor], bytes[cursor + 1], bytes[cursor + 2], bytes[cursor + 3]]);
        cursor += 4;
      }

      frames = [];
      while (cursor + 4 <= bytes.length) {
        const frameLength = readU32LE(bytes, cursor);
        cursor += 4;
        if (cursor + frameLength > bytes.length) break;
        frames.push(bytes.slice(cursor, cursor + frameLength));
        cursor += frameLength;
      }

      canvas.width = width;
      canvas.height = height;
      framebuffer = new Uint8Array(width * height);
      image = ctx.createImageData(width, height);
    }

    function drawFrame(frame) {
      if (frame.length < 9) return;
      const frameType = frame[0];
      const payloadLength = readU32LE(frame, 5);
      const payload = frame.slice(9, 9 + payloadLength);

      if (frameType === 0) {
        framebuffer.set(payload.slice(0, framebuffer.length));
      } else if (frameType === 1) {
        applyDelta(payload);
      } else {
        return;
      }
      renderFramebuffer();
    }

    function applyDelta(payload) {
      const tilesX = width / tileSize;
      const tilesY = height / tileSize;
      const tileCount = tilesX * tilesY;
      const maskLength = Math.ceil(tileCount / 8);
      let cursor = maskLength;

      for (let tileIndex = 0; tileIndex < tileCount; tileIndex++) {
        if ((payload[Math.floor(tileIndex / 8)] & (1 << (tileIndex % 8))) === 0) continue;
        const tileX = tileIndex % tilesX;
        const tileY = Math.floor(tileIndex / tilesX);
        const decoded = decodeTile(payload, cursor, tileX, tileY);
        cursor = decoded.cursor;
        writeTile(tileX, tileY, decoded.tile);
      }
    }

    function decodeTile(bytes, cursor, tileX, tileY) {
      const mode = bytes[cursor++];
      const tile = readTile(tileX, tileY);

      if (mode === 0) {
        tile.set(bytes.slice(cursor, cursor + 64));
        cursor += 64;
      } else if (mode === 1) {
        tile.fill(bytes[cursor++]);
      } else if (mode === 2) {
        cursor = decodeRle(tile, bytes, cursor, false);
      } else if (mode === 3) {
        const spanCount = bytes[cursor++];
        let out = 0;
        for (let span = 0; span < spanCount; span++) {
          out += bytes[cursor++];
          const len = bytes[cursor++];
          tile.set(bytes.slice(cursor, cursor + len), out);
          cursor += len;
          out += len;
        }
      } else if (mode === 4) {
        cursor = decodeRle(tile, bytes, cursor, true);
      }

      return { tile, cursor };
    }

    function decodeRle(tile, bytes, cursor, xor) {
      const runCount = bytes[cursor++];
      let out = 0;
      for (let run = 0; run < runCount; run++) {
        const value = bytes[cursor++];
        const len = bytes[cursor++];
        for (let i = 0; i < len; i++) {
          tile[out] = xor ? tile[out] ^ value : value;
          out++;
        }
      }
      return cursor;
    }

    function readTile(tileX, tileY) {
      const tile = new Uint8Array(64);
      for (let y = 0; y < tileSize; y++) {
        for (let x = 0; x < tileSize; x++) {
          tile[y * tileSize + x] = framebuffer[(tileY * tileSize + y) * width + tileX * tileSize + x];
        }
      }
      return tile;
    }

    function writeTile(tileX, tileY, tile) {
      for (let y = 0; y < tileSize; y++) {
        for (let x = 0; x < tileSize; x++) {
          framebuffer[(tileY * tileSize + y) * width + tileX * tileSize + x] = tile[y * tileSize + x];
        }
      }
    }

    function renderFramebuffer() {
      for (let i = 0; i < framebuffer.length; i++) {
        const color = palette[framebuffer[i]] || palette[0] || [0, 0, 0, 255];
        const out = i * 4;
        image.data[out] = color[0];
        image.data[out + 1] = color[1];
        image.data[out + 2] = color[2];
        image.data[out + 3] = color[3];
      }
      ctx.putImageData(image, 0, 0);
    }

    function tick() {
      if (!playing || frames.length === 0) return;
      drawFrame(frames[frameIndex]);
      frameIndex = (frameIndex + 1) % frames.length;
      status.textContent = `${width}x${height} - frame ${frameIndex + 1} / ${frames.length}`;
    }

    toggle.addEventListener("click", () => {
      playing = !playing;
      toggle.textContent = playing ? "pause" : "play";
    });

    fetch("/recording.ipsc", { cache: "no-store" })
      .then(response => response.arrayBuffer())
      .then(buffer => {
        parseRecording(new Uint8Array(buffer));
        status.textContent = `${width}x${height} - ${frames.length} frames`;
        tick();
        setInterval(tick, 1000 / FPS);
      })
      .catch(error => {
        console.error(error);
        status.textContent = error.toString();
      });
  </script>
</body>
</html>"#;

/// `pat` occurs in `hay` at byte `i`.
pub open spec fn occurs_at(hay: Seq<u8>, pat: Seq<u8>, i: int) -> bool {
    0 <= i && i + pat.len() <= hay.len() && hay.subrange(i, i + pat.len()) == pat
}

/// `i` is the first occurrence of `pat` in `hay` at or after byte `from`.
pub open spec fn first_occurrence_at(hay: Seq<u8>, pat: Seq<u8>, from: int, i: int) -> bool {
    &&& from <= i
    &&& occurs_at(hay, pat, i)
    &&& forall|j: int| from <= j < i ==> !#[trigger] occurs_at(hay, pat, j)
}

/// The first occurrence of `pat` in `hay` at or after byte `from`, if any.
pub open spec fn find_from_spec(hay: Seq<u8>, pat: Seq<u8>, from: int) -> Option<int> {
    if exists|i: int| first_occurrence_at(hay, pat, from, i) {
        Some(choose|i: int| first_occurrence_at(hay, pat, from, i))
    } else {
        None
    }
}

proof fn lemma_first_occurrence_unique(hay: Seq<u8>, pat: Seq<u8>, from: int, i: int, k: int)
    requires
        first_occurrence_at(hay, pat, from, i),
        first_occurrence_at(hay, pat, from, k),
    ensures
        i == k,
{
    if i < k {
        assert(!occurs_at(hay, pat, i));
    } else if k < i {
        assert(!occurs_at(hay, pat, k));
    }
}

/// The byte index of the first occurrence of `pat` in `hay` at or after `from`.
pub fn find_from(hay: &[u8], pat: &[u8], from: usize) -> (r: Option<usize>)
    requires
        from <= hay@.len(),
    ensures
        match r {
            Some(i) => find_from_spec(hay@, pat@, from as int) == Some(i as int),
            None => find_from_spec(hay@, pat@, from as int) is None,
        },
{
    let n = hay.len();
    let m = pat.len();
    if m > n {
        proof {
            if exists|i: int| first_occurrence_at(hay@, pat@, from as int, i) {
                let i = choose|i: int| first_occurrence_at(hay@, pat@, from as int, i);
                assert(occurs_at(hay@, pat@, i));
            }
        }
        return None;
    }
    let mut i: usize = from;
    while i <= n - m
        invariant
            from <= i,
            n == hay@.len(),
            m == pat@.len(),
            m <= n,
            forall|j: int| from <= j < i ==> !#[trigger] occurs_at(hay@, pat@, j),
        decreases n - i,
    {
        let mut k: usize = 0;
        while k < m && hay[i + k] == pat[k]
            invariant
                k <= m,
                i + m <= n,
                n == hay@.len(),
                m == pat@.len(),
                forall|t: int| 0 <= t < k ==> hay@[i + t] == pat@[t],
            decreases m - k,
        {
            k = k + 1;
        }
        if k == m {
            assert(hay@.subrange(i as int, i + m) =~= pat@);
            assert(first_occurrence_at(hay@, pat@, from as int, i as int));
            proof {
                let c = choose|c: int| first_occurrence_at(hay@, pat@, from as int, c);
                lemma_first_occurrence_unique(hay@, pat@, from as int, i as int, c);
            }
            return Some(i);
        }
        assert(!occurs_at(hay@, pat@, i as int)) by {
            if occurs_at(hay@, pat@, i as int) {
                assert(hay@.subrange(i as int, i + m)[k as int] == pat@[k as int]);
            }
        }
        i = i + 1;
    }
    proof {
        if exists|c: int| first_occurrence_at(hay@, pat@, from as int, c) {
            let c = choose|c: int| first_occurrence_at(hay@, pat@, from as int, c);
            assert(occurs_at(hay@, pat@, c));
        }
    }
    None
}

/// The byte range of the text between the first `start_marker` and the first
/// `end_marker` after it, when both are present.
pub open spec fn raw_html_bounds(source: Seq<u8>, start_marker: Seq<u8>, end_marker: Seq<u8>) -> Option<(int, int)> {
    match find_from_spec(source, start_marker, 0) {
        None => None,
        Some(i) => {
            let start = i + start_marker.len();
            match find_from_spec(source, end_marker, start) {
                None => None,
                Some(end) => Some((start, end)),
            }
        },
    }
}

proof fn lemma_prefix_boundary(b: Seq<u8>, end: int, i: int)
    requires
        valid_utf8(b),
        is_char_boundary(b, end),
        is_char_boundary(b, i),
        0 <= i <= end <= b.len(),
    ensures
        valid_utf8(b.subrange(0, end)),
        is_char_boundary(b.subrange(0, end), i),
{
    valid_utf8_split(b, end);
    let p = b.subrange(0, end);
    if i == end {
        is_char_boundary_start_end_of_seq(p);
        assert(p.len() == end);
    } else {
        is_char_boundary_iff_not_is_continuation_byte(b, i);
        is_char_boundary_iff_not_is_continuation_byte(p, i);
    }
}

/// The text of `source` between the first `start_marker` and the first
/// `end_marker` after it (exclusive on both sides).
pub fn extract_raw_html(source: &str, start_marker: &str, end_marker: &str) -> (r: String)
    requires
        raw_html_bounds(source.spec_bytes(), start_marker.spec_bytes(), end_marker.spec_bytes()) is Some,
        ({
            let (start, end) = raw_html_bounds(
                source.spec_bytes(),
                start_marker.spec_bytes(),
                end_marker.spec_bytes(),
            )->0;
            is_char_boundary(source.spec_bytes(), start) && is_char_boundary(source.spec_bytes(), end)
        }),
    ensures
        ({
            let (start, end) = raw_html_bounds(
                source.spec_bytes(),
                start_marker.spec_bytes(),
                end_marker.spec_bytes(),
            )->0;
            encode_utf8(r@) == source.spec_bytes().subrange(start, end)
        }),
{
    let bytes = source.as_bytes();
    let start_bytes = start_marker.as_bytes();
    let end_bytes = end_marker.as_bytes();
    let found = find_from(bytes, start_bytes, 0);
    let index = match found {
        Some(index) => index,
        None => {
            assert(false);
            0
        },
    };
    proof {
        assert(find_from_spec(bytes@, start_bytes@, 0) == Some(index as int));
        assert(exists|c: int| first_occurrence_at(bytes@, start_bytes@, 0, c));
        let c = choose|c: int| first_occurrence_at(bytes@, start_bytes@, 0, c);
        assert(first_occurrence_at(bytes@, start_bytes@, 0, c));
        assert(occurs_at(bytes@, start_bytes@, index as int));
    }
    let total = bytes.len();
    assert(index + start_bytes@.len() <= total);
    let start = index + start_bytes.len();
    let end = match find_from(bytes, end_bytes, start) {
        Some(end) => end,
        None => {
            assert(false);
            0
        },
    };
    proof {
        encode_utf8_valid_utf8(source@);
        lemma_prefix_boundary(bytes@, end as int, start as int);
    }
    let (head, _) = source.split_at(end);
    let (_, middle) = head.split_at(start);
    owned(middle)
}

/// The decimal digits of `v`.
pub open spec fn decimal_text(v: nat) -> Seq<char>
    decreases v,
{
    if v < 10 {
        seq![(48 + v) as char]
    } else {
        decimal_text(v / 10) + seq![(48 + v % 10) as char]
    }
}

pub(crate) fn digit_text(d: u32) -> (s: &'static str)
    requires
        d < 10,
    ensures
        s@ == seq![(48 + d) as char],
{
    let s = match d {
        0 => "0",
        1 => "1",
        2 => "2",
        3 => "3",
        4 => "4",
        5 => "5",
        6 => "6",
        7 => "7",
        8 => "8",
        _ => "9",
    };
    proof {
        reveal_strlit("0");
        reveal_strlit("1");
        reveal_strlit("2");
        reveal_strlit("3");
        reveal_strlit("4");
        reveal_strlit("5");
        reveal_strlit("6");
        reveal_strlit("7");
        reveal_strlit("8");
        reveal_strlit("9");
    }
    assert(s@ =~= seq![(48 + d) as char]);
    s
}

/// Appends the decimal digits of `v` to `out`.
pub fn push_decimal(out: &mut String, v: u32)
    ensures
        final(out)@ == old(out)@ + decimal_text(v as nat),
    decreases v,
{
    if v >= 10 {
        push_decimal(out, v / 10);
    }
    out.append(digit_text(v % 10));
    assert(decimal_text(v as nat) =~= (if v < 10 {
        seq![(48 + v) as char]
    } else {
        decimal_text((v / 10) as nat) + seq![(48 + v % 10) as char]
    }));
}

/// The page of the IPSI image viewer.
pub fn viewer_html() -> (page: String)
    ensures
        page@ == VIEWER_HTML@,
{
    owned(VIEWER_HTML)
}

/// The page of the combined palette and converter lab server.
pub fn lab_shell_html() -> (page: String)
    ensures
        page@ == LAB_SHELL_HTML@,
{
    owned(LAB_SHELL_HTML)
}

/// The page of the exported static palette and converter lab.
pub fn exported_lab_shell_html() -> (page: String)
    ensures
        page@ == EXPORTED_LAB_SHELL_HTML@,
{
    owned(EXPORTED_LAB_SHELL_HTML)
}

/// The page of the IPSC recording player, which plays at `fps` frames per second.
pub fn player_html(fps: u32) -> (page: String)
    ensures
        page@ == PLAYER_HTML_HEAD@ + decimal_text(fps as nat) + PLAYER_HTML_TAIL@,
{
    let mut page = owned(PLAYER_HTML_HEAD);
    push_decimal(&mut page, fps);
    page.append(PLAYER_HTML_TAIL);
    page
}

} // verus!
