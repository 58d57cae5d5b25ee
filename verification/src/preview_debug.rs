//! Pixel inspection of the preview: which palette index the GPU lookup should
//! have produced for a clicked pixel, and what the quantized readback holds.

use vstd::prelude::*;
use vstd::string::StringExecFns;
use crate::lab_html::{decimal_text, push_decimal};
use crate::palette_lut::LUT_ENTRY_COUNT;
use crate::text::owned;

verus! {

/// Which preview image a click inspected.
#[derive(Clone, Copy, Debug, PartialEq, Eq, Structural)]
pub enum PreviewPixelSource {
    Raw,
    Quantized,
    Audit,
    OverlayMask,
}

/// How the shader found a pixel's palette index.
#[derive(Clone, Copy, Debug, PartialEq, Eq, Structural)]
pub enum PreviewLookupRoute {
    /// The color is a palette color and bypasses the lookup.
    ExactPalette,
    /// The direct table, indexed by the undithered color.
    DirectTable,
    /// The altered table, indexed by the dithered color.
    AlteredTable,
}

impl PreviewLookupRoute {
    /// How the route is named in the inspector.
    pub fn label(self) -> (s: &'static str)
        ensures
            s@ == route_label(self),
    {
        match self {
            PreviewLookupRoute::ExactPalette => "exact palette bypass",
            PreviewLookupRoute::DirectTable => "direct IPSMAP table",
            PreviewLookupRoute::AlteredTable => "altered/prequantized IPSMAP table",
        }
    }
}

/// The inspector's name of a route.
pub open spec fn route_label(r: PreviewLookupRoute) -> Seq<char> {
    match r {
        PreviewLookupRoute::ExactPalette => "exact palette bypass"@,
        PreviewLookupRoute::DirectTable => "direct IPSMAP table"@,
        PreviewLookupRoute::AlteredTable => "altered/prequantized IPSMAP table"@,
    }
}

/// A clicked pixel of the unquantized preview.
#[derive(Clone, Copy, Debug)]
pub struct RawPixelDebug {
    pub x: u32,
    pub y: u32,
    pub b: u8,
    pub g: u8,
    pub r: u8,
    pub a: u8,
    pub lookup_rgb: [u8; 3],
    pub lookup_key: usize,
    pub lookup_route: PreviewLookupRoute,
}

/// A clicked pixel of the quantized readback.
#[derive(Clone, Copy, Debug)]
pub struct QuantizedPixelDebug {
    pub palette_index: u8,
    pub shader_palette_index: u8,
    pub color: [u8; 4],
    pub lookup_rgb: [u8; 3],
    pub direct_overlay: bool,
}

/// The lookup table key of a color: red, green and blue as one 24-bit number.
pub open spec fn rgb_key_value(rgb: [u8; 3]) -> int {
    rgb[0] * 65536 + rgb[1] * 256 + rgb[2]
}

/// The lookup table key of a color.
pub fn rgb_key(rgb: [u8; 3]) -> (k: usize)
    ensures
        k == rgb_key_value(rgb),
{
    rgb[0] as usize * 65536 + rgb[1] as usize * 256 + rgb[2] as usize
}

/// The first palette index below `min(256, len)` from `k` on whose color has
/// red, green and blue `r g b`.
pub open spec fn first_exact_from(palette: Seq<[u8; 4]>, r: u8, g: u8, b: u8, k: int) -> Option<int>
    decreases 256 - k,
{
    if k < 0 || k >= 256 || k >= palette.len() {
        None
    } else if palette[k][0] == r && palette[k][1] == g && palette[k][2] == b {
        Some(k)
    } else {
        first_exact_from(palette, r, g, b, k + 1)
    }
}

/// The index of the first of the first 256 palette colors with red, green
/// and blue `r g b`, if any.
pub fn exact_palette_index(r: u8, g: u8, b: u8, palette_colors: &[[u8; 4]]) -> (i: Option<u8>)
    ensures
        i == match first_exact_from(palette_colors@, r, g, b, 0) {
            Some(k) => Some(k as u8),
            None => None::<u8>,
        },
{
    let n = palette_colors.len();
    let mut k: usize = 0;
    while k < 256 && k < n
        invariant
            k <= 256,
            n == palette_colors@.len(),
            first_exact_from(palette_colors@, r, g, b, 0) == first_exact_from(palette_colors@, r, g, b, k as int),
        decreases 256 - k,
    {
        let c = palette_colors[k];
        if c[0] == r && c[1] == g && c[2] == b {
            return Some(k as u8);
        }
        k = k + 1;
    }
    None
}

/// The palette index the GPU lookup should give a pixel: the exact palette
/// color for the bypass route, else the table entry at the key of the lookup
/// color the quantized readback reports (in the second table for the direct
/// route), if the table has it.
pub open spec fn spec_expected_gpu_lookup_index(
    raw: RawPixelDebug,
    quantized: QuantizedPixelDebug,
    entries: Seq<u8>,
    palette: Seq<[u8; 4]>,
) -> Option<u8> {
    if raw.lookup_route == PreviewLookupRoute::ExactPalette {
        match first_exact_from(palette, raw.r, raw.g, raw.b, 0) {
            Some(k) => Some(k as u8),
            None => None,
        }
    } else {
        let key = rgb_key_value(quantized.lookup_rgb) + if raw.lookup_route == PreviewLookupRoute::DirectTable {
            LUT_ENTRY_COUNT as int
        } else {
            0
        };
        if key < entries.len() {
            Some(entries[key])
        } else {
            None
        }
    }
}

/// The palette index the GPU lookup should give the inspected pixel.
pub fn expected_gpu_lookup_index(
    raw: &RawPixelDebug,
    quantized: &QuantizedPixelDebug,
    lookup_entries: &[u8],
    palette_colors: &[[u8; 4]],
) -> (i: Option<u8>)
    ensures
        i == spec_expected_gpu_lookup_index(*raw, *quantized, lookup_entries@, palette_colors@),
{
    if raw.lookup_route == PreviewLookupRoute::ExactPalette {
        return exact_palette_index(raw.r, raw.g, raw.b, palette_colors);
    }
    let mut key = rgb_key(quantized.lookup_rgb);
    if raw.lookup_route == PreviewLookupRoute::DirectTable {
        key = key + LUT_ENTRY_COUNT;
    }
    if key < lookup_entries.len() {
        Some(lookup_entries[key])
    } else {
        None
    }
}

/// The inspected output pixel is the direct-output overlay.
pub fn is_direct_output_overlay(
    raw: &RawPixelDebug,
    quantized: &QuantizedPixelDebug,
    clicked_source: PreviewPixelSource,
) -> (b: bool)
    ensures
        b == quantized.direct_overlay,
{
    quantized.direct_overlay
}

/// What the inspector shows as expected for a pixel: the route's name, the
/// expected index as decimal text (or `out of range`), and its palette color
/// (opaque black when unknown). A pixel of the direct-output overlay shows
/// the overlay's own index and color instead.
pub fn preview_expected_readout(
    raw: &RawPixelDebug,
    quantized: &QuantizedPixelDebug,
    clicked_source: PreviewPixelSource,
    lookup_entries: &[u8],
    palette_colors: &[[u8; 4]],
) -> (r: (&'static str, String, [u8; 4]))
    ensures
        quantized.direct_overlay ==> r.0@ == "direct output overlay"@ && r.1@ == decimal_text(
            quantized.palette_index as nat,
        ) && r.2 == quantized.color,
        !quantized.direct_overlay ==> {
            let e = spec_expected_gpu_lookup_index(*raw, *quantized, lookup_entries@, palette_colors@);
            &&& r.0@ == route_label(raw.lookup_route)
            &&& r.1@ == match e {
                Some(k) => decimal_text(k as nat),
                None => "out of range"@,
            }
            &&& r.2 == match e {
                Some(k) => if (k as int) < palette_colors@.len() {
                    palette_colors@[k as int]
                } else {
                    [0u8, 0u8, 0u8, 255u8]
                },
                None => [0u8, 0u8, 0u8, 255u8],
            }
        },
{
    if is_direct_output_overlay(raw, quantized, clicked_source) {
        let mut text = String::new();
        push_decimal(&mut text, quantized.palette_index as u32);
        assert(text@ =~= decimal_text(quantized.palette_index as nat));
        return ("direct output overlay", text, quantized.color);
    }
    let expected = expected_gpu_lookup_index(raw, quantized, lookup_entries, palette_colors);
    match expected {
        Some(k) => {
            let color = if (k as usize) < palette_colors.len() {
                palette_colors[k as usize]
            } else {
                [0, 0, 0, 255]
            };
            let mut text = String::new();
            push_decimal(&mut text, k as u32);
            assert(text@ =~= decimal_text(k as nat));
            (raw.lookup_route.label(), text, color)
        },
        None => (raw.lookup_route.label(), owned("out of range"), [0, 0, 0, 255]),
    }
}

/// The byte at `i`, or 0 past the end.
pub open spec fn byte_or_zero(data: Seq<u8>, i: int) -> u8 {
    if 0 <= i < data.len() {
        data[i]
    } else {
        0
    }
}

fn byte_at(data: &[u8], i: usize) -> (b: u8)
    ensures
        b == byte_or_zero(data@, i as int),
{
    if i < data.len() {
        data[i]
    } else {
        0
    }
}

/// What the quantized readback holds at pixel `(x, y)` of rows
/// `aligned_row_bytes` apart: the palette index, its color (opaque black
/// past the palette), and the lookup color the shader wrote beside it.
/// Bytes past the end read as 0.
pub fn quantized_pixel_debug(data: &[u8], aligned_row_bytes: usize, x: u32, y: u32, palette_colors: &[[u8; 4]]) -> (d:
    QuantizedPixelDebug)
    requires
        y * aligned_row_bytes + 4 * x + 3 <= usize::MAX,
    ensures
        ({
            let offset = y * aligned_row_bytes + 4 * x;
            let index = byte_or_zero(data@, offset);
            &&& d.palette_index == index
            &&& d.shader_palette_index == index
            &&& d.color == if (index as int) < palette_colors@.len() {
                palette_colors@[index as int]
            } else {
                [0u8, 0u8, 0u8, 255u8]
            }
            &&& d.lookup_rgb == [
                byte_or_zero(data@, offset + 1),
                byte_or_zero(data@, offset + 2),
                byte_or_zero(data@, offset + 3),
            ]
            &&& !d.direct_overlay
        }),
{
    let offset = y as usize * aligned_row_bytes + x as usize * 4;
    let index = byte_at(data, offset);
    let color = if (index as usize) < palette_colors.len() {
        palette_colors[index as usize]
    } else {
        [0, 0, 0, 255]
    };
    QuantizedPixelDebug {
        palette_index: index,
        shader_palette_index: index,
        color,
        lookup_rgb: [byte_at(data, offset + 1), byte_at(data, offset + 2), byte_at(data, offset + 3)],
        direct_overlay: false,
    }
}

/// The overlay mask marks pixel `(x, y)`: its fourth byte is not 0.
pub fn overlay_mask_pixel(data: &[u8], aligned_row_bytes: usize, x: u32, y: u32) -> (b: bool)
    requires
        y * aligned_row_bytes + 4 * x + 3 <= usize::MAX,
    ensures
        b == (byte_or_zero(data@, y * aligned_row_bytes + 4 * x + 3) > 0),
{
    let offset = y as usize * aligned_row_bytes + x as usize * 4;
    byte_at(data, offset + 3) > 0
}

/// The palette cut to 256 colors, or padded to 256 with opaque black.
pub fn padded_preview_palette(colors: Vec<[u8; 4]>) -> (r: Vec<[u8; 4]>)
    ensures
        r@.len() == 256,
        forall|k: int| 0 <= k < 256 ==> #[trigger] r@[k] == if k < colors@.len() {
            colors@[k]
        } else {
            [0u8, 0u8, 0u8, 255u8]
        },
{
    let mut r: Vec<[u8; 4]> = Vec::new();
    let mut k: usize = 0;
    while k < 256
        invariant
            k <= 256,
            r@.len() == k,
            forall|j: int| 0 <= j < k ==> #[trigger] r@[j] == if j < colors@.len() {
                colors@[j]
            } else {
                [0u8, 0u8, 0u8, 255u8]
            },
        decreases 256 - k,
    {
        if k < colors.len() {
            r.push(colors[k]);
        } else {
            r.push([0, 0, 0, 255]);
        }
        k = k + 1;
    }
    r
}

/// Row strides of a texture copy are multiples of this many bytes.
pub const COPY_BYTES_PER_ROW_ALIGNMENT: usize = 256;

/// `row_bytes` rounded up to the next multiple of the copy alignment.
pub open spec fn aligned_row_bytes(row_bytes: int) -> int {
    (row_bytes + 255) / 256 * 256
}

/// The stride of a texture copy whose rows hold `row_bytes` bytes: the least
/// multiple of 256 that is at least `row_bytes`.
pub fn align_copy_bytes_per_row(row_bytes: usize) -> (n: usize)
    requires
        row_bytes + 255 <= usize::MAX,
    ensures
        n == aligned_row_bytes(row_bytes as int),
        n % 256 == 0,
        row_bytes <= n < row_bytes + 256,
{
    let padding = (COPY_BYTES_PER_ROW_ALIGNMENT - row_bytes % COPY_BYTES_PER_ROW_ALIGNMENT) % COPY_BYTES_PER_ROW_ALIGNMENT;
    let n = row_bytes + padding;
    assert(n == aligned_row_bytes(row_bytes as int) && n % 256 == 0) by (nonlinear_arith)
        requires
            padding == (256 - row_bytes % 256) % 256,
            n == row_bytes + padding,
            row_bytes >= 0,
    ;
    n
}

/// The byte offset of pixel `(x, y)` in a readback `width` pixels wide.
pub open spec fn readback_offset(x: u32, y: u32, width: u32) -> int {
    y * aligned_row_bytes(4 * width) + 4 * x
}

/// What the quantized readback of a frame `width` pixels wide holds at pixel
/// `(x, y)`; rows are padded to the copy alignment.
pub fn preview_quantized_pixel_debug(x: u32, y: u32, width: u32, data: &[u8], palette_colors: &[[u8; 4]]) -> (d:
    QuantizedPixelDebug)
    requires
        4 * width + 255 <= usize::MAX,
        readback_offset(x, y, width) + 3 <= usize::MAX,
    ensures
        ({
            let offset = readback_offset(x, y, width);
            let index = byte_or_zero(data@, offset);
            &&& d.palette_index == index
            &&& d.shader_palette_index == index
            &&& d.color == if (index as int) < palette_colors@.len() {
                palette_colors@[index as int]
            } else {
                [0u8, 0u8, 0u8, 255u8]
            }
            &&& d.lookup_rgb == [
                byte_or_zero(data@, offset + 1),
                byte_or_zero(data@, offset + 2),
                byte_or_zero(data@, offset + 3),
            ]
            &&& !d.direct_overlay
        }),
{
    let aligned = align_copy_bytes_per_row(width as usize * 4);
    quantized_pixel_debug(data, aligned, x, y, palette_colors)
}

/// The overlay mask of a frame `width` pixels wide marks pixel `(x, y)`.
pub fn preview_overlay_mask_pixel(x: u32, y: u32, width: u32, data: &[u8]) -> (b: bool)
    requires
        4 * width + 255 <= usize::MAX,
        readback_offset(x, y, width) + 3 <= usize::MAX,
    ensures
        b == (byte_or_zero(data@, readback_offset(x, y, width) + 3) > 0),
{
    let aligned = align_copy_bytes_per_row(width as usize * 4);
    overlay_mask_pixel(data, aligned, x, y)
}

/// A clicked pixel outside the readback: black, transparent, routed through
/// the altered table.
pub open spec fn out_of_range_debug(x: u32, y: u32) -> RawPixelDebug {
    RawPixelDebug {
        x,
        y,
        b: 0,
        g: 0,
        r: 0,
        a: 0,
        lookup_rgb: [0u8, 0u8, 0u8],
        lookup_key: 0,
        lookup_route: PreviewLookupRoute::AlteredTable,
    }
}

impl RawPixelDebug {
    /// A clicked pixel outside the readback: black, transparent, routed
    /// through the altered table.
    pub fn out_of_range(x: u32, y: u32) -> (d: Self)
        ensures
            d == out_of_range_debug(x, y),
    {
        RawPixelDebug {
            x,
            y,
            b: 0,
            g: 0,
            r: 0,
            a: 0,
            lookup_rgb: [0, 0, 0],
            lookup_key: 0,
            lookup_route: PreviewLookupRoute::AlteredTable,
        }
    }
}

/// The raw pixel at `(x, y)` of a BGRA readback `width` pixels wide, given
/// what the shader's lookup should have done with it (`expected`: the route,
/// the index and the lookup color); without an expectation the pixel counts
/// as routed through the altered table with its own color. A pixel whose
/// bytes run past the data is out of range.
pub fn raw_pixel_debug(
    x: u32,
    y: u32,
    width: u32,
    data: &[u8],
    expected: Option<(PreviewLookupRoute, u8, [u8; 3])>,
) -> (d: RawPixelDebug)
    requires
        4 * width + 255 <= usize::MAX,
        readback_offset(x, y, width) + 3 <= usize::MAX,
    ensures
        ({
            let offset = readback_offset(x, y, width);
            if offset + 3 >= data@.len() {
                d == out_of_range_debug(x, y)
            } else {
                let rgb = [data@[offset + 2], data@[offset + 1], data@[offset]];
                let lookup_rgb = match expected {
                    Some(e) => e.2,
                    None => rgb,
                };
                &&& d.x == x && d.y == y
                &&& d.b == data@[offset] && d.g == data@[offset + 1] && d.r == data@[offset + 2]
                &&& d.a == data@[offset + 3]
                &&& d.lookup_rgb == lookup_rgb
                &&& d.lookup_key == rgb_key_value(lookup_rgb)
                &&& d.lookup_route == match expected {
                    Some(e) => e.0,
                    None => PreviewLookupRoute::AlteredTable,
                }
            }
        }),
{
    let aligned = align_copy_bytes_per_row(width as usize * 4);
    let offset = y as usize * aligned + x as usize * 4;
    if offset + 3 >= data.len() {
        return RawPixelDebug::out_of_range(x, y);
    }
    let b = data[offset];
    let g = data[offset + 1];
    let r = data[offset + 2];
    let a = data[offset + 3];
    let (lookup_route, lookup_rgb) = match expected {
        Some((route, _, rgb)) => (route, rgb),
        None => (PreviewLookupRoute::AlteredTable, [r, g, b]),
    };
    RawPixelDebug { x, y, b, g, r, a, lookup_rgb, lookup_key: rgb_key(lookup_rgb), lookup_route }
}

/// The quantized pixel at `(x, y)` as the audit sees it: the index from the
/// quantized readback, the shader's index and lookup color from the audit
/// readback, and the overlay mark from the overlay mask.
pub fn audited_quantized_pixel_debug(
    x: u32,
    y: u32,
    width: u32,
    quantized: &[u8],
    audit: &[u8],
    overlay_mask: &[u8],
    palette_colors: &[[u8; 4]],
) -> (d: QuantizedPixelDebug)
    requires
        4 * width + 255 <= usize::MAX,
        readback_offset(x, y, width) + 3 <= usize::MAX,
    ensures
        ({
            let offset = readback_offset(x, y, width);
            let index = byte_or_zero(quantized@, offset);
            &&& d.palette_index == index
            &&& d.color == if (index as int) < palette_colors@.len() {
                palette_colors@[index as int]
            } else {
                [0u8, 0u8, 0u8, 255u8]
            }
            &&& d.shader_palette_index == byte_or_zero(audit@, offset)
            &&& d.lookup_rgb == [
                byte_or_zero(audit@, offset + 1),
                byte_or_zero(audit@, offset + 2),
                byte_or_zero(audit@, offset + 3),
            ]
            &&& d.direct_overlay == (byte_or_zero(overlay_mask@, offset + 3) > 0)
        }),
{
    let mut d = preview_quantized_pixel_debug(x, y, width, quantized, palette_colors);
    let a = preview_quantized_pixel_debug(x, y, width, audit, palette_colors);
    d.lookup_rgb = a.lookup_rgb;
    d.shader_palette_index = a.palette_index;
    d.direct_overlay = preview_overlay_mask_pixel(x, y, width, overlay_mask);
    d
}

/// How an audited pixel disagrees with its expectation.
#[derive(Clone, Copy, Debug, PartialEq, Eq, Structural)]
pub struct PixelAudit {
    /// The output index is not the one the lookup table gives, or the
    /// shader reported another index than it wrote.
    pub mapping_mismatch: bool,
    /// The shader looked up another color than the one predicted.
    pub drift: bool,
}

/// The audit of one pixel: none for the direct-output overlay or when all
/// agrees.
pub open spec fn spec_audit_pixel(
    raw: RawPixelDebug,
    quantized: QuantizedPixelDebug,
    entries: Seq<u8>,
    palette: Seq<[u8; 4]>,
) -> Option<PixelAudit> {
    let mapping_mismatch = spec_expected_gpu_lookup_index(raw, quantized, entries, palette) != Some(
        quantized.palette_index,
    ) || quantized.shader_palette_index != quantized.palette_index;
    let drift = raw.lookup_rgb != quantized.lookup_rgb;
    if quantized.direct_overlay || (!mapping_mismatch && !drift) {
        None
    } else {
        Some(PixelAudit { mapping_mismatch, drift })
    }
}

/// Audits one pixel of the preview against the lookup table.
pub fn audit_preview_pixel(
    raw: &RawPixelDebug,
    quantized: &QuantizedPixelDebug,
    lookup_entries: &[u8],
    palette_colors: &[[u8; 4]],
) -> (r: Option<PixelAudit>)
    ensures
        r == spec_audit_pixel(*raw, *quantized, lookup_entries@, palette_colors@),
{
    if is_direct_output_overlay(raw, quantized, PreviewPixelSource::Raw) {
        return None;
    }
    let expected = expected_gpu_lookup_index(raw, quantized, lookup_entries, palette_colors);
    let mapping_mismatch = match expected {
        Some(k) => k != quantized.palette_index,
        None => true,
    } || quantized.shader_palette_index != quantized.palette_index;
    let drift = raw.lookup_rgb[0] != quantized.lookup_rgb[0] || raw.lookup_rgb[1] != quantized.lookup_rgb[1]
        || raw.lookup_rgb[2] != quantized.lookup_rgb[2];
    assert(drift == (raw.lookup_rgb != quantized.lookup_rgb)) by {
        if !drift {
            assert(raw.lookup_rgb =~= quantized.lookup_rgb);
        }
    }
    if !mapping_mismatch && !drift {
        return None;
    }
    Some(PixelAudit { mapping_mismatch, drift })
}

/// Counts of the disagreements found in a frame.
#[derive(Clone, Copy, Debug, Default, PartialEq, Eq, Structural)]
pub struct PreviewFrameValidationSummary {
    pub mismatches: u64,
    pub mapping_mismatches: u64,
    pub drifts: u64,
}

impl PreviewFrameValidationSummary {
    /// Counts one audited pixel.
    pub fn record(&mut self, audit: PixelAudit)
        requires
            old(self).mismatches < u64::MAX,
            old(self).mapping_mismatches < u64::MAX,
            old(self).drifts < u64::MAX,
        ensures
            final(self).mismatches == old(self).mismatches + if audit.mapping_mismatch {
                1int
            } else {
                0
            },
            final(self).mapping_mismatches == old(self).mapping_mismatches + if audit.mapping_mismatch {
                1int
            } else {
                0
            },
            final(self).drifts == old(self).drifts + if audit.drift {
                1int
            } else {
                0
            },
    {
        if audit.mapping_mismatch {
            self.mismatches = self.mismatches + 1;
            self.mapping_mismatches = self.mapping_mismatches + 1;
        }
        if audit.drift {
            self.drifts = self.drifts + 1;
        }
    }
}

} // verus!
