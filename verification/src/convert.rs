//! Options and integer geometry of the PNG to IPSI converter.

use vstd::prelude::*;
use crate::text::{owned, parse_u32, spec_parse_u32, str_eq};
use vstd::string::StringSliceAdditionalSpecFns;

verus! {

/// How a source image is reduced to the output size.
#[derive(Clone, Copy, Debug, PartialEq, Eq, Structural)]
pub enum DownscaleMode {
    OklchAverage,
    Majority,
    Minority,
    Solve2x2,
    Solve2x2Hue,
}

impl DownscaleMode {
    /// The option value that names the mode.
    pub fn name(self) -> (name: &'static str)
        ensures
            self == DownscaleMode::OklchAverage ==> name@ == "average"@,
            self == DownscaleMode::Majority ==> name@ == "majority"@,
            self == DownscaleMode::Minority ==> name@ == "minority"@,
            self == DownscaleMode::Solve2x2 ==> name@ == "solve2x2"@,
            self == DownscaleMode::Solve2x2Hue ==> name@ == "solve2x2-hue"@,
    {
        match self {
            DownscaleMode::OklchAverage => "average",
            DownscaleMode::Majority => "majority",
            DownscaleMode::Minority => "minority",
            DownscaleMode::Solve2x2 => "solve2x2",
            DownscaleMode::Solve2x2Hue => "solve2x2-hue",
        }
    }
}

/// The mode a `--downscale` value names, if any.
pub open spec fn spec_downscale_mode(value: Seq<char>) -> Option<DownscaleMode> {
    if value == "average"@ || value == "oklch"@ {
        Some(DownscaleMode::OklchAverage)
    } else if value == "majority"@ || value == "majority-rules"@ {
        Some(DownscaleMode::Majority)
    } else if value == "minority"@ || value == "smallest-minority"@ {
        Some(DownscaleMode::Minority)
    } else if value == "solve2x2"@ || value == "2x2"@ {
        Some(DownscaleMode::Solve2x2)
    } else if value == "solve2x2-hue"@ || value == "2x2-hue"@ || value == "hue2x2"@ {
        Some(DownscaleMode::Solve2x2Hue)
    } else {
        None
    }
}

/// Parses a `--downscale` value.
pub fn parse_downscale_mode(value: &str) -> (r: Result<DownscaleMode, String>)
    ensures
        match spec_downscale_mode(value@) {
            Some(mode) => r == Ok::<DownscaleMode, String>(mode),
            None => r is Err && r->Err_0@
                == "downscale mode must be average, majority, minority, solve2x2, or solve2x2-hue"@,
        },
{
    if str_eq(value, "average") || str_eq(value, "oklch") {
        Ok(DownscaleMode::OklchAverage)
    } else if str_eq(value, "majority") || str_eq(value, "majority-rules") {
        Ok(DownscaleMode::Majority)
    } else if str_eq(value, "minority") || str_eq(value, "smallest-minority") {
        Ok(DownscaleMode::Minority)
    } else if str_eq(value, "solve2x2") || str_eq(value, "2x2") {
        Ok(DownscaleMode::Solve2x2)
    } else if str_eq(value, "solve2x2-hue") || str_eq(value, "2x2-hue") || str_eq(value, "hue2x2") {
        Ok(DownscaleMode::Solve2x2Hue)
    } else {
        Err(owned("downscale mode must be average, majority, minority, solve2x2, or solve2x2-hue"))
    }
}

/// Output image size in pixels.
#[derive(Clone, Copy, Debug, PartialEq, Eq, Structural)]
pub struct OutputSize {
    pub width: u32,
    pub height: u32,
}

/// The byte is `x` or `X`.
pub open spec fn is_size_separator(b: u8) -> bool {
    b == 120 || b == 88
}

/// `i` is the first `x` or `X` in `b`.
pub open spec fn first_separator_at(b: Seq<u8>, i: int) -> bool {
    &&& 0 <= i < b.len()
    &&& is_size_separator(b[i])
    &&& forall|j: int| 0 <= j < i ==> !is_size_separator(#[trigger] b[j])
}

/// Why a `--size` value was refused.
#[derive(Clone, Copy, Debug, PartialEq, Eq, Structural)]
pub enum SizeError {
    NoSeparator,
    BadWidth,
    BadHeight,
    Zero,
    TooLarge,
}

/// The message printed for a refused `--size` value.
pub open spec fn size_error_text(e: SizeError) -> Seq<char> {
    match e {
        SizeError::NoSeparator => "size must look like 128x128"@,
        SizeError::BadWidth => "size width must be a whole number"@,
        SizeError::BadHeight => "size height must be a whole number"@,
        SizeError::Zero => "size dimensions must be greater than zero"@,
        SizeError::TooLarge => "IPSI images are limited to 65535x65535"@,
    }
}

/// What `parse_size` decides, on the UTF-8 bytes of the value: `WIDTHxHEIGHT`
/// split at the first `x` or `X`, both parts decimal `u32`, neither zero,
/// neither above 65535.
pub open spec fn spec_parse_size(b: Seq<u8>) -> Result<OutputSize, SizeError> {
    if !(exists|i: int| first_separator_at(b, i)) {
        Err(SizeError::NoSeparator)
    } else {
        let i = choose|i: int| first_separator_at(b, i);
        let width = spec_parse_u32(b.take(i));
        let height = spec_parse_u32(b.skip(i + 1));
        if width is None {
            Err(SizeError::BadWidth)
        } else if height is None {
            Err(SizeError::BadHeight)
        } else if width->0 == 0 || height->0 == 0 {
            Err(SizeError::Zero)
        } else if width->0 > 65535 || height->0 > 65535 {
            Err(SizeError::TooLarge)
        } else {
            Ok(OutputSize { width: width->0, height: height->0 })
        }
    }
}

proof fn lemma_first_separator_unique(b: Seq<u8>, i: int, k: int)
    requires
        first_separator_at(b, i),
        first_separator_at(b, k),
    ensures
        i == k,
{
    if i < k {
        assert(!is_size_separator(b[i]));
    } else if k < i {
        assert(!is_size_separator(b[k]));
    }
}

/// Parses a `--size` value such as `128x128`.
pub fn parse_size(value: &str) -> (r: Result<OutputSize, String>)
    ensures
        match spec_parse_size(value.spec_bytes()) {
            Ok(size) => r == Ok::<OutputSize, String>(size),
            Err(e) => r is Err && r->Err_0@ == size_error_text(e),
        },
{
    let b = value.as_bytes();
    let n = b.len();
    let mut i: usize = 0;
    while i < n && b[i] != 120 && b[i] != 88
        invariant
            i <= n,
            n == b@.len(),
            forall|j: int| 0 <= j < i ==> !is_size_separator(#[trigger] b@[j]),
        decreases n - i,
    {
        i = i + 1;
    }
    if i == n {
        assert(!(exists|k: int| first_separator_at(b@, k))) by {
            if exists|k: int| first_separator_at(b@, k) {
                let k = choose|k: int| first_separator_at(b@, k);
                assert(!is_size_separator(b@[k]));
            }
        }
        return Err(owned("size must look like 128x128"));
    }
    assert(first_separator_at(b@, i as int));
    proof {
        let k = choose|k: int| first_separator_at(b@, k);
        lemma_first_separator_unique(b@, i as int, k);
    }
    let left = vstd::slice::slice_subrange(b, 0, i);
    let right = vstd::slice::slice_subrange(b, i + 1, n);
    assert(left@ =~= b@.take(i as int));
    assert(right@ =~= b@.skip(i + 1));
    let width = match parse_u32(left) {
        Some(w) => w,
        None => return Err(owned("size width must be a whole number")),
    };
    let height = match parse_u32(right) {
        Some(h) => h,
        None => return Err(owned("size height must be a whole number")),
    };
    if width == 0 || height == 0 {
        return Err(owned("size dimensions must be greater than zero"));
    }
    if width > 65535 || height > 65535 {
        return Err(owned("IPSI images are limited to 65535x65535"));
    }
    Ok(OutputSize { width, height })
}

/// `position * source / target`, rounded down, truncated to 32 bits.
pub fn scale_floor(position: u32, source: u32, target: u32) -> (r: u32)
    requires
        target > 0,
    ensures
        r == ((position as int * source as int) / target as int) as u32,
{
    assert(position as u64 * source as u64 <= u64::MAX) by (nonlinear_arith)
        requires
            position <= u32::MAX,
            source <= u32::MAX,
    ;
    (position as u64 * source as u64 / target as u64) as u32
}

/// `position * source / target`, rounded up, truncated to 32 bits.
pub fn scale_ceil(position: u32, source: u32, target: u32) -> (r: u32)
    requires
        target > 0,
    ensures
        r == (if (position as int * source as int) % target as int == 0 {
            (position as int * source as int) / target as int
        } else {
            (position as int * source as int) / target as int + 1
        }) as u32,
{
    assert(position as u64 * source as u64 <= 0xffff_fffe_0000_0001) by (nonlinear_arith)
        requires
            position <= u32::MAX,
            source <= u32::MAX,
    ;
    let product = position as u64 * source as u64;
    let quotient = product / target as u64;
    if product % target as u64 == 0 {
        quotient as u32
    } else {
        (quotient + 1) as u32
    }
}

/// The centered crop `(x, y, width, height)` of a source image that has the
/// aspect ratio of the output size.
pub open spec fn spec_crop_to_aspect_bounds(
    source_width: u32,
    source_height: u32,
    size: OutputSize,
) -> (u32, u32, u32, u32) {
    let target_aspect = size.width as int * source_height as int;
    let source_aspect = source_width as int * size.height as int;
    if source_aspect == target_aspect {
        (0, 0, source_width, source_height)
    } else if source_aspect > target_aspect {
        let w = (target_aspect / size.height as int) as u32;
        let w = if w < 1 {
            1u32
        } else {
            w
        };
        let w = if w > source_width {
            source_width
        } else {
            w
        };
        (((source_width - w) / 2) as u32, 0, w, source_height)
    } else {
        let h = (source_aspect / size.width as int) as u32;
        let h = if h < 1 {
            1u32
        } else {
            h
        };
        let h = if h > source_height {
            source_height
        } else {
            h
        };
        (0, ((source_height - h) / 2) as u32, source_width, h)
    }
}

proof fn lemma_floor_div(a: int, d: int)
    requires
        a >= 0,
        d > 0,
    ensures
        (a / d) * d <= a < (a / d + 1) * d,
        a / d >= 0,
{
    assert((a / d) * d <= a < (a / d + 1) * d) by (nonlinear_arith)
        requires
            a >= 0,
            d > 0,
    ;
    assert(a / d >= 0) by (nonlinear_arith)
        requires
            a >= 0,
            d > 0,
    ;
}

/// The crop keeps the output's aspect ratio and is centered in the source.
/// For a source wider than the output, it keeps the full height and is as
/// wide as the output's aspect allows at that height (the largest width `w`
/// with `w / source_height <= width / height`, at least one pixel); a taller
/// source likewise keeps the full width. A source of the output's aspect is
/// kept whole.
pub proof fn lemma_crop_keeps_output_aspect(source_width: u32, source_height: u32, size: OutputSize)
    requires
        size.width > 0,
        size.height > 0,
    ensures
        ({
            let (x, y, w, h) = spec_crop_to_aspect_bounds(source_width, source_height, size);
            let sw = source_width as int;
            let sh = source_height as int;
            let ow = size.width as int;
            let oh = size.height as int;
            &&& x + w <= sw
            &&& y + h <= sh
            &&& (2 * x + w == sw || 2 * x + w + 1 == sw)
            &&& (2 * y + h == sh || 2 * y + h + 1 == sh)
            &&& sw * oh == ow * sh ==> x == 0 && y == 0 && w == sw && h == sh
            &&& sw * oh > ow * sh ==> {
                &&& y == 0
                &&& h == sh
                &&& 1 <= w
                &&& ((w * oh <= sh * ow && sh * ow < (w + 1) * oh) || (w == 1 && sh * ow < oh))
            }
            &&& sw * oh < ow * sh ==> {
                &&& x == 0
                &&& w == sw
                &&& 1 <= h
                &&& ((h * ow <= sw * oh && sw * oh < (h + 1) * ow) || (h == 1 && sw * oh < ow))
            }
        }),
{
    let sw = source_width as int;
    let sh = source_height as int;
    let ow = size.width as int;
    let oh = size.height as int;
    let target_aspect = ow * sh;
    let source_aspect = sw * oh;
    assert(target_aspect >= 0 && source_aspect >= 0) by (nonlinear_arith)
        requires
            target_aspect == ow * sh,
            source_aspect == sw * oh,
            ow > 0,
            oh > 0,
            sw >= 0,
            sh >= 0,
    ;
    if source_aspect > target_aspect {
        lemma_floor_div(target_aspect, oh);
        let q = target_aspect / oh;
        assert(sh * ow == target_aspect) by (nonlinear_arith)
            requires
                target_aspect == ow * sh,
        ;
        // The floor is below the source width: q * oh <= ow * sh < sw * oh.
        assert(q < sw) by (nonlinear_arith)
            requires
                q * oh <= target_aspect,
                target_aspect < sw * oh,
                oh > 0,
        ;
        assert(q <= u32::MAX);
        assert(sw >= 1);
    } else if source_aspect < target_aspect {
        lemma_floor_div(source_aspect, ow);
        let q = source_aspect / ow;
        assert(sw * oh == source_aspect);
        assert(q < sh) by (nonlinear_arith)
            requires
                q * ow <= source_aspect,
                source_aspect < ow * sh,
                ow > 0,
        ;
        assert(q <= u32::MAX);
        assert(sh >= 1);
    }
}

/// Crops the source to the output aspect ratio, centered.
pub fn crop_to_aspect_bounds(source_width: u32, source_height: u32, size: OutputSize) -> (r: (
    u32,
    u32,
    u32,
    u32,
))
    requires
        size.width > 0,
        size.height > 0,
    ensures
        r == spec_crop_to_aspect_bounds(source_width, source_height, size),
{
    assert(size.width as u64 * source_height as u64 <= u64::MAX) by (nonlinear_arith)
        requires
            size.width <= u32::MAX,
            source_height <= u32::MAX,
    ;
    assert(source_width as u64 * size.height as u64 <= u64::MAX) by (nonlinear_arith)
        requires
            source_width <= u32::MAX,
            size.height <= u32::MAX,
    ;
    let target_aspect = size.width as u64 * source_height as u64;
    let source_aspect = source_width as u64 * size.height as u64;
    if source_aspect == target_aspect {
        return (0, 0, source_width, source_height);
    }
    if source_aspect > target_aspect {
        let w = (target_aspect / size.height as u64) as u32;
        let w = if w < 1 {
            1
        } else {
            w
        };
        let w = if w > source_width {
            source_width
        } else {
            w
        };
        ((source_width - w) / 2, 0, w, source_height)
    } else {
        let h = (source_aspect / size.width as u64) as u32;
        let h = if h < 1 {
            1
        } else {
            h
        };
        let h = if h > source_height {
            source_height
        } else {
            h
        };
        (0, (source_height - h) / 2, source_width, h)
    }
}

/// Why a converted image cannot be written as IPSI.
#[derive(Clone, Copy, Debug, PartialEq, Eq, Structural)]
pub enum IpsiSizeError {
    Empty,
    TooLarge,
}

/// Checks that a converted image has a size IPSI can store.
pub fn check_ipsi_dimensions(width: u32, height: u32) -> (r: Result<(u16, u16), IpsiSizeError>)
    ensures
        (width == 0 || height == 0) ==> r == Err::<(u16, u16), IpsiSizeError>(IpsiSizeError::Empty),
        (width != 0 && height != 0 && (width > 65535 || height > 65535)) ==> r == Err::<
            (u16, u16),
            IpsiSizeError,
        >(IpsiSizeError::TooLarge),
        (0 < width <= 65535 && 0 < height <= 65535) ==> r == Ok::<(u16, u16), IpsiSizeError>(
            (width as u16, height as u16),
        ),
{
    if width == 0 || height == 0 {
        return Err(IpsiSizeError::Empty);
    }
    if width > 65535 || height > 65535 {
        return Err(IpsiSizeError::TooLarge);
    }
    Ok((width as u16, height as u16))
}

/// Number of palette entries below `k` that some pixel uses.
pub open spec fn used_below(pixels: Seq<u8>, k: int) -> nat
    decreases k,
{
    if k <= 0 {
        0
    } else {
        used_below(pixels, k - 1) + if pixels.contains((k - 1) as u8) {
            1nat
        } else {
            0nat
        }
    }
}

/// How many of the `palette_len` palette entries appear among the pixels.
pub fn used_palette_entries(pixels: &[u8], palette_len: usize) -> (n: usize)
    ensures
        n == used_below(pixels@, if palette_len < 256 {
            palette_len as int
        } else {
            256
        }),
{
    let mut used: Vec<bool> = Vec::new();
    let mut k: usize = 0;
    while k < 256
        invariant
            k <= 256,
            used@.len() == k,
            forall|j: int| 0 <= j < k ==> !#[trigger] used@[j],
        decreases 256 - k,
    {
        used.push(false);
        k = k + 1;
    }
    let mut i: usize = 0;
    while i < pixels.len()
        invariant
            i <= pixels@.len(),
            used@.len() == 256,
            forall|j: int| 0 <= j < 256 ==> #[trigger] used@[j] == pixels@.take(i as int).contains(j as u8),
        decreases pixels@.len() - i,
    {
        let p = pixels[i];
        used.set(p as usize, true);
        assert forall|j: int| 0 <= j < 256 implies #[trigger] used@[j] == pixels@.take(i + 1).contains(j as u8) by {
            assert(pixels@.take(i + 1) =~= pixels@.take(i as int).push(p));
            if pixels@.take(i + 1).contains(j as u8) && j != p {
                let t = choose|t: int| 0 <= t < i + 1 && #[trigger] pixels@.take(i + 1)[t] == j as u8;
                assert(t < i);
                assert(pixels@.take(i as int)[t] == j as u8);
            }
            if j == p {
                assert(pixels@.take(i + 1)[i as int] == p);
            }
            if pixels@.take(i as int).contains(j as u8) {
                let t = choose|t: int| 0 <= t < i && #[trigger] pixels@.take(i as int)[t] == j as u8;
                assert(pixels@.take(i + 1)[t] == j as u8);
            }
        }
        i = i + 1;
    }
    assert(pixels@.take(pixels@.len() as int) =~= pixels@);
    let limit = if palette_len < 256 {
        palette_len
    } else {
        256
    };
    let mut count: usize = 0;
    let mut e: usize = 0;
    while e < limit
        invariant
            e <= limit <= 256,
            used@.len() == 256,
            forall|j: int| 0 <= j < 256 ==> #[trigger] used@[j] == pixels@.contains(j as u8),
            count == used_below(pixels@, e as int),
            count <= e,
        decreases limit - e,
    {
        if used[e] {
            count = count + 1;
        }
        e = e + 1;
    }
    count
}

} // verus!
