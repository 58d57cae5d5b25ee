//! IPSI indexed images and IPSC stream recordings.
//!
//! An IPSI image is the magic `IPSI`, a version byte, little-endian `u16`
//! width, height and palette length, the palette as four bytes per color, and
//! one palette index per pixel. An IPSC recording starts with the magic `IPSC`
//! and is at least 12 bytes long.

use vstd::prelude::*;
use crate::le::{le_bytes, lemma_byte_pows, lemma_le_bytes_len, lemma_le_roundtrip, push_le};
use crate::palette_lut::{color_bytes, lemma_color_bytes_len};

verus! {

/// Why an image or recording was refused.
#[derive(Clone, Copy, Debug, PartialEq, Eq, Structural)]
pub enum IpsiError {
    /// The data does not start with the expected header.
    MissingHeader,
    /// The image is shorter than its header declares.
    Truncated,
}

/// The little-endian `u16` stored at `offset`.
pub open spec fn u16_at(bytes: Seq<u8>, offset: int) -> nat {
    bytes[offset] as nat + 256 * bytes[offset + 1] as nat
}

/// Reads a little-endian `u16` from `bytes` at `offset`.
pub fn read_u16_le(bytes: &[u8], offset: usize) -> (value: u16)
    requires
        offset + 1 < bytes@.len(),
    ensures
        value == u16_at(bytes@, offset as int),
{
    let lo = bytes[offset] as u16;
    let hi = bytes[offset + 1] as u16;
    lo + hi * 256
}

/// The four magic bytes start the data.
pub open spec fn starts_with4(bytes: Seq<u8>, a: u8, b: u8, c: u8, d: u8) -> bool {
    bytes.len() >= 4 && bytes[0] == a && bytes[1] == b && bytes[2] == c && bytes[3] == d
}

/// The length an IPSI image needs according to its header.
pub open spec fn ipsi_declared_len(bytes: Seq<u8>) -> nat {
    11 + u16_at(bytes, 9) * 4 + u16_at(bytes, 5) * u16_at(bytes, 7)
}

/// What `validate_image` decides: `None` when the image is accepted.
pub open spec fn spec_image_error(bytes: Seq<u8>) -> Option<IpsiError> {
    if bytes.len() < 11 || !starts_with4(bytes, 73, 80, 83, 73) {
        Some(IpsiError::MissingHeader)
    } else if bytes.len() < ipsi_declared_len(bytes) {
        Some(IpsiError::Truncated)
    } else {
        None
    }
}

/// Accepts bytes that start with an IPSI header and hold at least as many
/// palette and pixel bytes as the header declares; returns them unchanged.
pub fn validate_image(bytes: Vec<u8>) -> (r: Result<Vec<u8>, IpsiError>)
    ensures
        match r {
            Ok(b) => spec_image_error(bytes@) is None && b@ == bytes@,
            Err(e) => spec_image_error(bytes@) == Some(e),
        },
{
    if bytes.len() < 11 || bytes[0] != 73 || bytes[1] != 80 || bytes[2] != 83 || bytes[3] != 73 {
        return Err(IpsiError::MissingHeader);
    }
    let width = read_u16_le(bytes.as_slice(), 5) as u64;
    let height = read_u16_le(bytes.as_slice(), 7) as u64;
    let palette_len = read_u16_le(bytes.as_slice(), 9) as u64;
    assert(width * height <= 65535 * 65535) by (nonlinear_arith)
        requires
            width <= 65535,
            height <= 65535,
    ;
    let expected = 11 + palette_len * 4 + width * height;
    if (bytes.len() as u64) < expected {
        return Err(IpsiError::Truncated);
    }
    Ok(bytes)
}

/// What `validate_recording` decides: `None` when the recording is accepted.
pub open spec fn spec_recording_error(bytes: Seq<u8>) -> Option<IpsiError> {
    if bytes.len() < 12 || !starts_with4(bytes, 73, 80, 83, 67) {
        Some(IpsiError::MissingHeader)
    } else {
        None
    }
}

/// Accepts bytes of at least 12 bytes that start with `IPSC`; returns them unchanged.
pub fn validate_recording(bytes: Vec<u8>) -> (r: Result<Vec<u8>, IpsiError>)
    ensures
        match r {
            Ok(b) => spec_recording_error(bytes@) is None && b@ == bytes@,
            Err(e) => spec_recording_error(bytes@) == Some(e),
        },
{
    if bytes.len() < 12 || bytes[0] != 73 || bytes[1] != 80 || bytes[2] != 83 || bytes[3] != 67 {
        return Err(IpsiError::MissingHeader);
    }
    Ok(bytes)
}

/// The IPSI encoding of an image: magic, version 1, width, height, palette
/// length (modulo 2^16, as `as u16` writes it), palette colors and pixels.
pub open spec fn ipsi_bytes(width: u16, height: u16, palette: Seq<[u8; 4]>, pixels: Seq<u8>) -> Seq<
    u8,
> {
    seq![73u8, 80, 83, 73, 1] + le_bytes(width as nat, 2) + le_bytes(height as nat, 2) + le_bytes(
        palette.len() % 65536,
        2,
    ) + color_bytes(palette) + pixels
}

/// Builds an IPSI image from its size, palette and palette-index pixels.
pub fn encode_ipsi(width: u16, height: u16, palette: &[[u8; 4]], pixels: &[u8]) -> (image: Vec<u8>)
    ensures
        image@ == ipsi_bytes(width, height, palette@, pixels@),
{
    let mut image: Vec<u8> = Vec::new();
    image.push(73);
    image.push(80);
    image.push(83);
    image.push(73);
    image.push(1);
    push_le(&mut image, width as u64, 2);
    push_le(&mut image, height as u64, 2);
    push_le(&mut image, (palette.len() % 65536) as u64, 2);
    let mut i: usize = 0;
    let ghost header = image@;
    assert(palette@.take(0) =~= Seq::<[u8; 4]>::empty());
    while i < palette.len()
        invariant
            i <= palette@.len(),
            image@ == header + color_bytes(palette@.take(i as int)),
        decreases palette@.len() - i,
    {
        let c = palette[i];
        let ghost before = image@;
        image.push(c[0]);
        image.push(c[1]);
        image.push(c[2]);
        image.push(c[3]);
        assert(palette@.take(i + 1).drop_last() =~= palette@.take(i as int));
        assert(image@ =~= before + c@);
        i = i + 1;
    }
    assert(palette@.take(palette@.len() as int) =~= palette@);
    let mut j: usize = 0;
    let ghost with_palette = image@;
    while j < pixels.len()
        invariant
            j <= pixels@.len(),
            image@ == with_palette + pixels@.take(j as int),
        decreases pixels@.len() - j,
    {
        image.push(pixels[j]);
        assert(pixels@.take(j + 1) =~= pixels@.take(j as int).push(pixels@[j as int]));
        j = j + 1;
    }
    assert(pixels@.take(pixels@.len() as int) =~= pixels@);
    assert(image@ =~= ipsi_bytes(width, height, palette@, pixels@));
    image
}

/// An encoded image passes `validate_image` when it holds a pixel for every
/// position and at most 65535 palette colors.
pub proof fn lemma_encoded_image_validates(
    width: u16,
    height: u16,
    palette: Seq<[u8; 4]>,
    pixels: Seq<u8>,
)
    requires
        palette.len() <= 65535,
        pixels.len() >= width * height,
    ensures
        spec_image_error(ipsi_bytes(width, height, palette, pixels)) is None,
{
    let b = ipsi_bytes(width, height, palette, pixels);
    lemma_byte_pows();
    lemma_le_bytes_len(width as nat, 2);
    lemma_le_bytes_len(height as nat, 2);
    lemma_le_bytes_len(palette.len() % 65536, 2);
    lemma_color_bytes_len(palette);
    lemma_le_roundtrip(width as nat, 2);
    lemma_le_roundtrip(height as nat, 2);
    lemma_le_roundtrip(palette.len() % 65536, 2);
    assert(b.subrange(5, 7) =~= le_bytes(width as nat, 2));
    assert(b.subrange(7, 9) =~= le_bytes(height as nat, 2));
    assert(b.subrange(9, 11) =~= le_bytes(palette.len() % 65536, 2));
    assert(u16_at(b, 5) == width) by {
        reveal_with_fuel(crate::le::le_value, 3);
    }
    assert(u16_at(b, 7) == height) by {
        reveal_with_fuel(crate::le::le_value, 3);
    }
    assert(u16_at(b, 9) == palette.len()) by {
        reveal_with_fuel(crate::le::le_value, 3);
    }
}

} // verus!
