//! IPSMAP palette lookup format.
//!
//! An IPSMAP file stores a palette, the matching settings that were used to
//! bake it, and precomputed altered and direct RGB-to-palette-index tables, so
//! runtime quantization is a single lookup instead of a nearest-color search.
//!
//! The matching settings are 32-bit IEEE-754 floats in the file; this module
//! carries them as their bit patterns, which is exactly what the file format,
//! the hashes and the equality checks look at.

use vstd::prelude::*;
use vstd::slice::slice_subrange;
use vstd::slice::slice_to_vec;
use crate::text::owned;
use crate::lab_html::{decimal_text, push_count};
use vstd::string::StringExecFns;
use crate::fnv::{feed_hash_bytes, fnv_fold, lemma_fnv_fold_concat, FNV_OFFSET};
use crate::le::{
    byte_pow, le_bytes, le_value, lemma_byte_pows, lemma_le_bytes_len, lemma_le_bytes_of_value,
    lemma_le_roundtrip, lemma_le_value_bound, push_le, read_le,
};

verus! {

/// Number of RGB keys in one lookup table (256 * 256 * 256).
pub const LUT_ENTRY_COUNT: usize = 16_777_216;

/// Header length of the legacy IPSMAP1 format.
pub const LUT_V1_HEADER_LEN: usize = 30;

/// Header length of the self-contained IPSMAP4, IPSMAP5 and IPSMAP6 formats.
pub const LUT_V4_HEADER_LEN: usize = 24;

/// Length of the IPSMAP6 matching metadata: nine little-endian 32-bit floats.
pub const LUT_V6_MATCHING_LEN: usize = 36;

/// Bit pattern of the IEEE-754 single-precision float `0.333`.
pub const BITS_0_333: u32 = 0x3eaa_7efa;

/// Bit pattern of the IEEE-754 single-precision float `0.334`.
pub const BITS_0_334: u32 = 0x3eab_020c;

/// Bit pattern of the IEEE-754 single-precision float `0.001`.
pub const BITS_0_001: u32 = 0x3a83_126f;

/// Matching weights and input offsets used when a lookup was baked.
///
/// Every field holds the bit pattern of an IEEE-754 single-precision float
/// (`f32::to_bits`).
#[derive(Clone, Copy, Debug, PartialEq, Eq, Structural)]
pub struct PaletteMatching {
    pub lightness: u32,
    pub chroma: u32,
    pub hue: u32,
    pub lightness_multiply: u32,
    pub lightness_add: u32,
    pub chroma_multiply: u32,
    pub chroma_add: u32,
    pub grey_chroma_threshold: u32,
    pub hue_add: u32,
}

/// The default matching settings: weights 0.333, 0.333, 0.334, no offsets and a
/// grey chroma threshold of 0.001.
pub open spec fn default_matching() -> PaletteMatching {
    PaletteMatching {
        lightness: BITS_0_333,
        chroma: BITS_0_333,
        hue: BITS_0_334,
        lightness_multiply: 0,
        lightness_add: 0,
        chroma_multiply: 0,
        chroma_add: 0,
        grey_chroma_threshold: BITS_0_001,
        hue_add: 0,
    }
}

impl Default for PaletteMatching {
    fn default() -> (m: Self)
        ensures
            m == default_matching(),
    {
        PaletteMatching {
            lightness: BITS_0_333,
            chroma: BITS_0_333,
            hue: BITS_0_334,
            lightness_multiply: 0,
            lightness_add: 0,
            chroma_multiply: 0,
            chroma_add: 0,
            grey_chroma_threshold: BITS_0_001,
            hue_add: 0,
        }
    }
}

/// The bit pattern is a NaN.
pub open spec fn is_nan_bits(bits: u32) -> bool {
    bits % 0x8000_0000 > 0x7f80_0000
}

/// `|x| > 0.000_001` for the float `x` with these bits. Non-negative floats are
/// ordered like their bit patterns; `0x3586_37bd` is `0.000_001f32`, and NaN
/// compares false.
pub open spec fn exceeds_offset_tolerance(bits: u32) -> bool {
    bits % 0x8000_0000 > 0x3586_37bd && !is_nan_bits(bits)
}

/// `|g - 0.001| > 0.000_001` for the float `g` with these bits. Between
/// `0.0005` and `0.002` the single-precision subtraction is exact, so the test
/// is true exactly for negative floats, for floats up to `0x3a82_f0e1` and for
/// floats from `0x3a83_33fd` on; NaN compares false.
pub open spec fn grey_threshold_moved(bits: u32) -> bool {
    !is_nan_bits(bits) && (bits >= 0x8000_0000 || bits <= 0x3a82_f0e1 || bits >= 0x3a83_33fd)
}

impl PaletteMatching {
    /// The nine settings in file order.
    pub open spec fn words(self) -> Seq<u32> {
        seq![
            self.lightness,
            self.chroma,
            self.hue,
            self.lightness_multiply,
            self.lightness_add,
            self.chroma_multiply,
            self.chroma_add,
            self.grey_chroma_threshold,
            self.hue_add,
        ]
    }

    /// Some input offset differs from "no offset".
    pub open spec fn spec_has_input_offset(self) -> bool {
        ||| exceeds_offset_tolerance(self.lightness_multiply)
        ||| exceeds_offset_tolerance(self.lightness_add)
        ||| exceeds_offset_tolerance(self.chroma_multiply)
        ||| exceeds_offset_tolerance(self.chroma_add)
        ||| exceeds_offset_tolerance(self.hue_add)
        ||| grey_threshold_moved(self.grey_chroma_threshold)
    }

    /// Whether any lightness, chroma or hue offset is set, or the grey chroma
    /// threshold was moved away from its default (beyond a 0.000001 tolerance).
    pub fn has_input_offset(&self) -> (b: bool)
        ensures
            b == self.spec_has_input_offset(),
    {
        exceeds_tolerance(self.lightness_multiply) || exceeds_tolerance(self.lightness_add)
            || exceeds_tolerance(self.chroma_multiply) || exceeds_tolerance(self.chroma_add)
            || exceeds_tolerance(self.hue_add) || threshold_moved(self.grey_chroma_threshold)
    }
}

fn exceeds_tolerance(bits: u32) -> (b: bool)
    ensures
        b == exceeds_offset_tolerance(bits),
{
    let magnitude = bits % 0x8000_0000;
    magnitude > 0x3586_37bd && magnitude <= 0x7f80_0000
}

fn threshold_moved(bits: u32) -> (b: bool)
    ensures
        b == grey_threshold_moved(bits),
{
    bits % 0x8000_0000 <= 0x7f80_0000 && (bits >= 0x8000_0000 || bits <= 0x3a82_f0e1
        || bits >= 0x3a83_33fd)
}

/// The four little-endian bytes of a 32-bit word.
pub open spec fn le4(w: u32) -> Seq<u8> {
    le_bytes(w as nat, 4)
}

/// The 36-byte IPSMAP6 encoding of the matching settings.
pub open spec fn matching_bytes(m: PaletteMatching) -> Seq<u8> {
    le4(m.lightness) + le4(m.chroma) + le4(m.hue) + le4(m.lightness_multiply) + le4(
        m.lightness_add,
    ) + le4(m.chroma_multiply) + le4(m.chroma_add) + le4(m.grey_chroma_threshold) + le4(m.hue_add)
}

/// The 32-bit little-endian word stored at `4 * i` in `s`.
pub open spec fn word_at(s: Seq<u8>, i: int) -> u32 {
    le_value(s.subrange(4 * i, 4 * i + 4)) as u32
}

/// The matching settings whose encoding is the 36 bytes `s`.
pub open spec fn matching_of(s: Seq<u8>) -> PaletteMatching {
    PaletteMatching {
        lightness: word_at(s, 0),
        chroma: word_at(s, 1),
        hue: word_at(s, 2),
        lightness_multiply: word_at(s, 3),
        lightness_add: word_at(s, 4),
        chroma_multiply: word_at(s, 5),
        chroma_add: word_at(s, 6),
        grey_chroma_threshold: word_at(s, 7),
        hue_add: word_at(s, 8),
    }
}

/// A palette and the matching settings it is baked with.
#[derive(Debug)]
pub struct PaletteConfig {
    pub colors: Vec<[u8; 4]>,
    pub matching: PaletteMatching,
}

/// The value of a [`PaletteConfig`].
pub struct PaletteConfigModel {
    pub colors: Seq<[u8; 4]>,
    pub matching: PaletteMatching,
}

impl View for PaletteConfig {
    type V = PaletteConfigModel;

    open spec fn view(&self) -> PaletteConfigModel {
        PaletteConfigModel { colors: self.colors@, matching: self.matching }
    }
}

/// A decoded lookup: its stored hash, its table entries and its palette.
pub struct PaletteLookup {
    hash: u64,
    entries: Vec<u8>,
    config: PaletteConfig,
}

/// The value of a [`PaletteLookup`].
pub struct LookupModel {
    pub hash: u64,
    pub entries: Seq<u8>,
    pub config: PaletteConfigModel,
}

impl View for PaletteLookup {
    type V = LookupModel;

    closed spec fn view(&self) -> LookupModel {
        LookupModel { hash: self.hash, entries: self.entries@, config: self.config@ }
    }
}

impl PaletteLookup {
    /// All entries: the altered table, then the direct table where present.
    pub fn entries(&self) -> (r: &[u8])
        ensures
            r@ == self@.entries,
    {
        self.entries.as_slice()
    }

    /// The altered table: the first `LUT_ENTRY_COUNT` entries (all, if fewer).
    pub fn altered_entries(&self) -> (r: &[u8])
        ensures
            r@ == self@.entries.take(
                if self@.entries.len() < LUT_ENTRY_COUNT {
                    self@.entries.len() as int
                } else {
                    LUT_ENTRY_COUNT as int
                },
            ),
    {
        let end = if self.entries.len() < LUT_ENTRY_COUNT {
            self.entries.len()
        } else {
            LUT_ENTRY_COUNT
        };
        slice_subrange(self.entries.as_slice(), 0, end)
    }

    /// The direct table: entries `LUT_ENTRY_COUNT..2 * LUT_ENTRY_COUNT`, when
    /// the lookup holds both tables.
    pub fn direct_entries(&self) -> (r: Option<&[u8]>)
        ensures
            self@.entries.len() >= 2 * LUT_ENTRY_COUNT ==> r is Some && r->0@
                == self@.entries.subrange(LUT_ENTRY_COUNT as int, 2 * LUT_ENTRY_COUNT),
            self@.entries.len() < 2 * LUT_ENTRY_COUNT ==> r is None,
    {
        if self.entries.len() >= 2 * LUT_ENTRY_COUNT {
            Some(slice_subrange(self.entries.as_slice(), LUT_ENTRY_COUNT, 2 * LUT_ENTRY_COUNT))
        } else {
            None
        }
    }

    /// The hash stored in the lookup header.
    pub fn hash(&self) -> (h: u64)
        ensures
            h == self@.hash,
    {
        self.hash
    }

    /// The palette and matching settings carried by (or checked against) the lookup.
    pub fn config(&self) -> (c: &PaletteConfig)
        ensures
            c@ == self@.config,
    {
        &self.config
    }
}

/// Why a lookup could not be encoded or decoded.
#[derive(Clone, Copy, Debug, PartialEq, Eq, Structural)]
pub enum LookupError {
    /// Entries to encode are neither one nor two full tables.
    EntryCountInvalid { got: usize },
    /// A palette to encode has no colors or more than 256.
    PaletteColorCount,
    /// The bytes are shorter than the header of their format.
    TooShort { len: usize, expected: usize },
    /// A self-contained header declares no colors or more than 256.
    HeaderColorCount { count: usize },
    /// An IPSMAP6 header declares matching metadata of the wrong size.
    MatchingLength { len: usize },
    /// An IPSMAP6 header declares neither one nor two full tables.
    HeaderEntryCountV6 { count: usize },
    /// An IPSMAP4 or IPSMAP5 header declares the wrong number of entries.
    HeaderEntryCount { count: usize, expected: usize },
    /// IPSMAP6 bytes do not have the length their header declares.
    TotalLengthV6 { len: usize, expected: usize },
    /// IPSMAP4 or IPSMAP5 bytes do not have the length their header declares.
    TotalLength { len: usize, expected: usize },
    /// IPSMAP6 palette, metadata and entries do not hash to the stored hash.
    BundleHashMismatch,
    /// IPSMAP4 or IPSMAP5 palette and entries do not hash to the stored hash.
    LegacyHashMismatch,
    /// The bytes are none of IPSMAP4, IPSMAP5 and IPSMAP6.
    NotSelfContained,
    /// The bytes are none of IPSMAP4, IPSMAP5 and IPSMAP6 (config recovery).
    NotRecoverable,
    /// IPSMAP3 lookups are no longer supported.
    Ipsmap3Unsupported,
    /// IPSMAP2 lookups are no longer supported.
    Ipsmap2Unsupported,
    /// The lookup palette differs from the expected palette.
    ColorsMismatch,
    /// The lookup matching settings differ from the expected ones.
    MatchingMismatch,
    /// The bytes do not start with the IPSMAP1 magic.
    MagicMismatch,
    /// An IPSMAP1 hash differs from the hash of the expected palette.
    PaletteHashMismatch,
    /// An IPSMAP1 color count differs from the expected palette.
    ColorCountMismatch,
    /// An IPSMAP1 lookup does not hold exactly one table.
    EntryLength { got: usize },
}

/// The eight-byte magic `IPSMAP<v>\0`.
pub open spec fn magic(version: u8) -> Seq<u8> {
    seq![73u8, 80, 83, 77, 65, 80, (48 + version) as u8, 0]
}

/// The bytes start with the magic of format `version`.
pub open spec fn has_magic(bytes: Seq<u8>, version: u8) -> bool {
    bytes.len() >= 8 && bytes.take(8) == magic(version)
}

/// The bytes of the matching-algorithm version tag, `delta-e-ok-v8`.
pub open spec fn algorithm_version() -> Seq<u8> {
    seq![100u8, 101, 108, 116, 97, 45, 101, 45, 111, 107, 45, 118, 56]
}

/// The palette colors, four bytes each, in order.
pub open spec fn color_bytes(colors: Seq<[u8; 4]>) -> Seq<u8>
    decreases colors.len(),
{
    if colors.len() == 0 {
        Seq::empty()
    } else {
        color_bytes(colors.drop_last()) + colors.last()@
    }
}

/// The colors stored as consecutive four-byte groups in `s`.
pub open spec fn colors_of(s: Seq<u8>) -> Seq<[u8; 4]> {
    Seq::new(s.len() / 4, |i: int| [s[4 * i], s[4 * i + 1], s[4 * i + 2], s[4 * i + 3]])
}

/// What `palette_hash` hashes: the version tag, the colors, the three weights,
/// and the six offsets only when some offset is set.
pub open spec fn palette_hash_input(config: PaletteConfigModel) -> Seq<u8> {
    let m = matching_bytes(config.matching);
    algorithm_version() + color_bytes(config.colors) + if config.matching.spec_has_input_offset() {
        m
    } else {
        m.take(12)
    }
}

/// The hash IPSMAP1 lookups are checked against.
pub open spec fn spec_palette_hash(config: PaletteConfigModel) -> u64 {
    fnv_fold(FNV_OFFSET, palette_hash_input(config))
}

/// The hash stored in IPSMAP6 lookups.
pub open spec fn spec_lookup_hash(config: PaletteConfigModel, entries: Seq<u8>) -> u64 {
    fnv_fold(
        FNV_OFFSET,
        algorithm_version() + color_bytes(config.colors) + matching_bytes(config.matching)
            + entries,
    )
}

/// The hash stored in IPSMAP4 and IPSMAP5 lookups.
pub open spec fn spec_legacy_lookup_hash(colors: Seq<[u8; 4]>, entries: Seq<u8>) -> u64 {
    fnv_fold(FNV_OFFSET, algorithm_version() + color_bytes(colors) + entries)
}

/// Entries make one table or two.
pub open spec fn valid_entry_count(n: int) -> bool {
    n == LUT_ENTRY_COUNT || n == 2 * LUT_ENTRY_COUNT
}

/// The IPSMAP6 encoding of a palette, its matching settings and its entries.
pub open spec fn ipsmap6_bytes(config: PaletteConfigModel, entries: Seq<u8>) -> Seq<u8> {
    magic(6) + le_bytes(spec_lookup_hash(config, entries) as nat, 8) + le_bytes(
        config.colors.len(),
        2,
    ) + le_bytes(LUT_V6_MATCHING_LEN as nat, 2) + le_bytes(entries.len(), 4) + color_bytes(
        config.colors,
    ) + matching_bytes(config.matching) + entries
}

/// What `encode_lookup` returns.
pub open spec fn spec_encode_lookup(config: PaletteConfigModel, entries: Seq<u8>) -> Result<
    Seq<u8>,
    LookupError,
> {
    if !valid_entry_count(entries.len() as int) {
        Err(LookupError::EntryCountInvalid { got: entries.len() as usize })
    } else if config.colors.len() == 0 || config.colors.len() > 256 {
        Err(LookupError::PaletteColorCount)
    } else {
        Ok(ipsmap6_bytes(config, entries))
    }
}

/// The header field at `start..end`, little-endian.
pub open spec fn field(bytes: Seq<u8>, start: int, end: int) -> nat {
    le_value(bytes.subrange(start, end))
}

/// What `decode_lookup_v6_parts` returns: the stored hash, the palette with
/// its matching settings, and the entries.
pub open spec fn spec_v6_parts(bytes: Seq<u8>) -> Result<
    (u64, PaletteConfigModel, Seq<u8>),
    LookupError,
> {
    let count = field(bytes, 16, 18) as int;
    let matching_len = field(bytes, 18, 20) as int;
    let entry_count = field(bytes, 20, 24) as int;
    let matching_start = 24 + 4 * count;
    let entries_start = matching_start + matching_len;
    let expected = entries_start + entry_count;
    if bytes.len() < LUT_V4_HEADER_LEN {
        Err(LookupError::TooShort { len: bytes.len() as usize, expected: LUT_V4_HEADER_LEN })
    } else if count == 0 || count > 256 {
        Err(LookupError::HeaderColorCount { count: count as usize })
    } else if matching_len != LUT_V6_MATCHING_LEN {
        Err(LookupError::MatchingLength { len: matching_len as usize })
    } else if !valid_entry_count(entry_count) {
        Err(LookupError::HeaderEntryCountV6 { count: entry_count as usize })
    } else if bytes.len() != expected {
        Err(LookupError::TotalLengthV6 { len: bytes.len() as usize, expected: expected as usize })
    } else {
        Ok(
            (
                field(bytes, 8, 16) as u64,
                PaletteConfigModel {
                    colors: colors_of(bytes.subrange(24, matching_start)),
                    matching: matching_of(bytes.subrange(matching_start, entries_start)),
                },
                bytes.subrange(entries_start, bytes.len() as int),
            ),
        )
    }
}

/// The checks shared by IPSMAP4 and IPSMAP5 headers; `Ok` holds the color count.
pub open spec fn spec_v4_v5_layout(bytes: Seq<u8>, expected_entry_count: nat) -> Result<
    nat,
    LookupError,
> {
    let count = field(bytes, 16, 18) as int;
    let entry_count = field(bytes, 20, 24) as int;
    let expected = 24 + 4 * count + expected_entry_count;
    if bytes.len() < LUT_V4_HEADER_LEN {
        Err(LookupError::TooShort { len: bytes.len() as usize, expected: LUT_V4_HEADER_LEN })
    } else if count == 0 || count > 256 {
        Err(LookupError::HeaderColorCount { count: count as usize })
    } else if entry_count != expected_entry_count {
        Err(
            LookupError::HeaderEntryCount {
                count: entry_count as usize,
                expected: expected_entry_count as usize,
            },
        )
    } else if bytes.len() != expected {
        Err(LookupError::TotalLength { len: bytes.len() as usize, expected: expected as usize })
    } else {
        Ok(count as nat)
    }
}

/// What the IPSMAP4/IPSMAP5 bundle decoder returns.
pub open spec fn spec_bundle_v4_v5(bytes: Seq<u8>, expected_entry_count: nat) -> Result<
    LookupModel,
    LookupError,
> {
    match spec_v4_v5_layout(bytes, expected_entry_count) {
        Err(e) => Err(e),
        Ok(count) => {
            let colors = colors_of(bytes.subrange(24, 24 + 4 * (count as int)));
            let entries = bytes.subrange(24 + 4 * (count as int), bytes.len() as int);
            let hash = field(bytes, 8, 16) as u64;
            if spec_legacy_lookup_hash(colors, entries) != hash {
                Err(LookupError::LegacyHashMismatch)
            } else {
                Ok(
                    LookupModel {
                        hash,
                        entries,
                        config: PaletteConfigModel { colors, matching: default_matching() },
                    },
                )
            }
        },
    }
}

/// What the IPSMAP6 bundle decoder returns.
pub open spec fn spec_bundle_v6(bytes: Seq<u8>) -> Result<LookupModel, LookupError> {
    match spec_v6_parts(bytes) {
        Err(e) => Err(e),
        Ok((hash, config, entries)) => {
            if spec_lookup_hash(config, entries) != hash {
                Err(LookupError::BundleHashMismatch)
            } else {
                Ok(LookupModel { hash, entries, config })
            }
        },
    }
}

/// What `decode_lookup_bundle` returns.
pub open spec fn spec_decode_lookup_bundle(bytes: Seq<u8>) -> Result<LookupModel, LookupError> {
    if has_magic(bytes, 6) {
        spec_bundle_v6(bytes)
    } else if has_magic(bytes, 5) {
        spec_bundle_v4_v5(bytes, 2 * LUT_ENTRY_COUNT as nat)
    } else if has_magic(bytes, 4) {
        spec_bundle_v4_v5(bytes, LUT_ENTRY_COUNT as nat)
    } else if has_magic(bytes, 3) {
        Err(LookupError::Ipsmap3Unsupported)
    } else if has_magic(bytes, 2) {
        Err(LookupError::Ipsmap2Unsupported)
    } else {
        Err(LookupError::NotSelfContained)
    }
}

/// What `decode_lookup_config_unchecked` returns.
pub open spec fn spec_decode_lookup_config_unchecked(bytes: Seq<u8>) -> Result<
    PaletteConfigModel,
    LookupError,
> {
    if has_magic(bytes, 6) {
        match spec_v6_parts(bytes) {
            Err(e) => Err(e),
            Ok((_, config, _)) => Ok(config),
        }
    } else if has_magic(bytes, 5) || has_magic(bytes, 4) {
        let expected_entry_count = if has_magic(bytes, 5) {
            2 * LUT_ENTRY_COUNT as nat
        } else {
            LUT_ENTRY_COUNT as nat
        };
        match spec_v4_v5_layout(bytes, expected_entry_count) {
            Err(e) => Err(e),
            Ok(count) => Ok(
                PaletteConfigModel {
                    colors: colors_of(bytes.subrange(24, 24 + 4 * (count as int))),
                    matching: default_matching(),
                },
            ),
        }
    } else {
        Err(LookupError::NotRecoverable)
    }
}

/// What `decode_lookup` returns for bytes in the legacy IPSMAP1 format.
pub open spec fn spec_decode_v1(bytes: Seq<u8>, config: PaletteConfigModel) -> Result<
    LookupModel,
    LookupError,
> {
    let hash = field(bytes, 8, 16) as u64;
    let entries = bytes.subrange(LUT_V1_HEADER_LEN as int, bytes.len() as int);
    if bytes.len() < LUT_V1_HEADER_LEN {
        Err(LookupError::TooShort { len: bytes.len() as usize, expected: LUT_V1_HEADER_LEN })
    } else if bytes.take(8) != magic(1) {
        Err(LookupError::MagicMismatch)
    } else if hash != spec_palette_hash(config) {
        Err(LookupError::PaletteHashMismatch)
    } else if field(bytes, 16, 18) != config.colors.len() {
        Err(LookupError::ColorCountMismatch)
    } else if entries.len() != LUT_ENTRY_COUNT {
        Err(LookupError::EntryLength { got: entries.len() as usize })
    } else {
        Ok(LookupModel { hash, entries, config })
    }
}

/// What `decode_lookup` returns: a self-contained lookup whose palette (and,
/// for IPSMAP6, matching settings) agree with `config`, or a legacy lookup
/// checked against the hash of `config`.
pub open spec fn spec_decode_lookup(bytes: Seq<u8>, config: PaletteConfigModel) -> Result<
    LookupModel,
    LookupError,
> {
    if has_magic(bytes, 6) || has_magic(bytes, 5) || has_magic(bytes, 4) {
        match spec_decode_lookup_bundle(bytes) {
            Err(e) => Err(e),
            Ok(lookup) => {
                if lookup.config.colors != config.colors {
                    Err(LookupError::ColorsMismatch)
                } else if has_magic(bytes, 6) && lookup.config.matching != config.matching {
                    Err(LookupError::MatchingMismatch)
                } else {
                    Ok(lookup)
                }
            },
        }
    } else if has_magic(bytes, 3) {
        Err(LookupError::Ipsmap3Unsupported)
    } else if has_magic(bytes, 2) {
        Err(LookupError::Ipsmap2Unsupported)
    } else {
        spec_decode_v1(bytes, config)
    }
}

/// The view of a decoded lookup result.
pub open spec fn lookup_result_view(r: Result<PaletteLookup, LookupError>) -> Result<
    LookupModel,
    LookupError,
> {
    match r {
        Ok(l) => Ok(l@),
        Err(e) => Err(e),
    }
}

/// The view of a decoded palette result.
pub open spec fn config_result_view(r: Result<PaletteConfig, LookupError>) -> Result<
    PaletteConfigModel,
    LookupError,
> {
    match r {
        Ok(c) => Ok(c@),
        Err(e) => Err(e),
    }
}

/// The view of an encoded byte result.
pub open spec fn bytes_result_view(r: Result<Vec<u8>, LookupError>) -> Result<
    Seq<u8>,
    LookupError,
> {
    match r {
        Ok(v) => Ok(v@),
        Err(e) => Err(e),
    }
}

/// Appends every byte of `src` to `out`.
fn push_bytes(out: &mut Vec<u8>, src: &[u8])
    ensures
        final(out)@ == old(out)@ + src@,
{
    let n = src.len();
    let mut i: usize = 0;
    while i < n
        invariant
            i <= n,
            n == src@.len(),
            out@ == old(out)@ + src@.take(i as int),
        decreases n - i,
    {
        out.push(src[i]);
        assert(src@.take(i + 1) =~= src@.take(i as int).push(src@[i as int]));
        i = i + 1;
    }
    assert(src@.take(n as int) =~= src@);
}

/// The eight-byte magic of format `version`.
fn magic_bytes(version: u8) -> (v: Vec<u8>)
    requires
        version < 10,
    ensures
        v@ == magic(version),
{
    let v: Vec<u8> = vec![73u8, 80, 83, 77, 65, 80, 48 + version, 0];
    assert(v@ =~= magic(version));
    v
}

/// The bytes of the matching-algorithm version tag.
fn version_bytes() -> (v: Vec<u8>)
    ensures
        v@ == algorithm_version(),
{
    let v: Vec<u8> = vec![100u8, 101, 108, 116, 97, 45, 101, 45, 111, 107, 45, 118, 56];
    assert(v@ =~= algorithm_version());
    v
}

/// The palette colors flattened to bytes.
fn color_bytes_vec(colors: &[[u8; 4]]) -> (v: Vec<u8>)
    ensures
        v@ == color_bytes(colors@),
{
    let mut v: Vec<u8> = Vec::new();
    let n = colors.len();
    let mut i: usize = 0;
    assert(colors@.take(0) =~= Seq::<[u8; 4]>::empty());
    while i < n
        invariant
            i <= n,
            n == colors@.len(),
            v@ == color_bytes(colors@.take(i as int)),
        decreases n - i,
    {
        let c = colors[i];
        let ghost before = v@;
        v.push(c[0]);
        v.push(c[1]);
        v.push(c[2]);
        v.push(c[3]);
        assert(colors@.take(i + 1).drop_last() =~= colors@.take(i as int));
        assert(colors@.take(i + 1).last() == c);
        assert(v@ =~= before + c@);
        i = i + 1;
    }
    assert(colors@.take(n as int) =~= colors@);
    v
}

/// The 36-byte encoding of the matching settings.
fn palette_matching_bytes(m: PaletteMatching) -> (v: Vec<u8>)
    ensures
        v@ == matching_bytes(m),
{
    let mut v: Vec<u8> = Vec::new();
    push_le(&mut v, m.lightness as u64, 4);
    push_le(&mut v, m.chroma as u64, 4);
    push_le(&mut v, m.hue as u64, 4);
    push_le(&mut v, m.lightness_multiply as u64, 4);
    push_le(&mut v, m.lightness_add as u64, 4);
    push_le(&mut v, m.chroma_multiply as u64, 4);
    push_le(&mut v, m.chroma_add as u64, 4);
    push_le(&mut v, m.grey_chroma_threshold as u64, 4);
    push_le(&mut v, m.hue_add as u64, 4);
    assert(v@ =~= matching_bytes(m));
    v
}

pub proof fn lemma_le4_len(w: u32)
    ensures
        le4(w).len() == 4,
{
    lemma_le_bytes_len(w as nat, 4);
}

pub proof fn lemma_matching_bytes_len(m: PaletteMatching)
    ensures
        matching_bytes(m).len() == 36,
{
    lemma_le4_len(m.lightness);
    lemma_le4_len(m.chroma);
    lemma_le4_len(m.hue);
    lemma_le4_len(m.lightness_multiply);
    lemma_le4_len(m.lightness_add);
    lemma_le4_len(m.chroma_multiply);
    lemma_le4_len(m.chroma_add);
    lemma_le4_len(m.grey_chroma_threshold);
    lemma_le4_len(m.hue_add);
}

proof fn lemma_word_roundtrip(w: u32)
    ensures
        le_value(le4(w)) == w,
{
    lemma_byte_pows();
    lemma_le_roundtrip(w as nat, 4);
}

proof fn lemma_chunk_roundtrip(s: Seq<u8>, i: int)
    requires
        0 <= i,
        4 * i + 4 <= s.len(),
    ensures
        le4(word_at(s, i)) == s.subrange(4 * i, 4 * i + 4),
{
    let c = s.subrange(4 * i, 4 * i + 4);
    lemma_le_value_bound(c);
    lemma_byte_pows();
    lemma_le_bytes_of_value(c);
}

/// Decoding the encoding of matching settings gives them back.
pub proof fn lemma_matching_of_bytes(m: PaletteMatching)
    ensures
        matching_of(matching_bytes(m)) == m,
{
    let s = matching_bytes(m);
    lemma_matching_bytes_len(m);
    lemma_le4_len(m.lightness);
    lemma_le4_len(m.chroma);
    lemma_le4_len(m.hue);
    lemma_le4_len(m.lightness_multiply);
    lemma_le4_len(m.lightness_add);
    lemma_le4_len(m.chroma_multiply);
    lemma_le4_len(m.chroma_add);
    lemma_le4_len(m.grey_chroma_threshold);
    lemma_le4_len(m.hue_add);
    assert(s.subrange(0, 4) =~= le4(m.lightness));
    assert(s.subrange(4, 8) =~= le4(m.chroma));
    assert(s.subrange(8, 12) =~= le4(m.hue));
    assert(s.subrange(12, 16) =~= le4(m.lightness_multiply));
    assert(s.subrange(16, 20) =~= le4(m.lightness_add));
    assert(s.subrange(20, 24) =~= le4(m.chroma_multiply));
    assert(s.subrange(24, 28) =~= le4(m.chroma_add));
    assert(s.subrange(28, 32) =~= le4(m.grey_chroma_threshold));
    assert(s.subrange(32, 36) =~= le4(m.hue_add));
    lemma_word_roundtrip(m.lightness);
    lemma_word_roundtrip(m.chroma);
    lemma_word_roundtrip(m.hue);
    lemma_word_roundtrip(m.lightness_multiply);
    lemma_word_roundtrip(m.lightness_add);
    lemma_word_roundtrip(m.chroma_multiply);
    lemma_word_roundtrip(m.chroma_add);
    lemma_word_roundtrip(m.grey_chroma_threshold);
    lemma_word_roundtrip(m.hue_add);
}

/// Encoding the matching settings read from 36 bytes gives those bytes back.
pub proof fn lemma_matching_roundtrip(s: Seq<u8>)
    requires
        s.len() == 36,
    ensures
        matching_bytes(matching_of(s)) == s,
{
    lemma_chunk_roundtrip(s, 0);
    lemma_chunk_roundtrip(s, 1);
    lemma_chunk_roundtrip(s, 2);
    lemma_chunk_roundtrip(s, 3);
    lemma_chunk_roundtrip(s, 4);
    lemma_chunk_roundtrip(s, 5);
    lemma_chunk_roundtrip(s, 6);
    lemma_chunk_roundtrip(s, 7);
    lemma_chunk_roundtrip(s, 8);
    assert(matching_bytes(matching_of(s)) =~= s);
}

/// Matching settings are equal exactly when their encodings are.
pub proof fn lemma_matching_bytes_injective(a: PaletteMatching, b: PaletteMatching)
    ensures
        (matching_bytes(a) == matching_bytes(b)) == (a == b),
{
    lemma_matching_of_bytes(a);
    lemma_matching_of_bytes(b);
}

/// Reads the matching settings stored at `start`.
fn palette_matching_from_bytes(bytes: &[u8], start: usize) -> (m: PaletteMatching)
    requires
        start + LUT_V6_MATCHING_LEN <= bytes@.len(),
    ensures
        m == matching_of(bytes@.subrange(start as int, start + LUT_V6_MATCHING_LEN)),
{
    let ghost s = bytes@.subrange(start as int, start + LUT_V6_MATCHING_LEN);
    let total = bytes.len();
    assert(start + LUT_V6_MATCHING_LEN <= total);
    proof {
        lemma_byte_pows();
        assert(s.subrange(0, 4) =~= bytes@.subrange(start + 0, start + 4));
        lemma_le_value_bound(s.subrange(0, 4));
        assert(s.subrange(4, 8) =~= bytes@.subrange(start + 4, start + 8));
        lemma_le_value_bound(s.subrange(4, 8));
        assert(s.subrange(8, 12) =~= bytes@.subrange(start + 8, start + 12));
        lemma_le_value_bound(s.subrange(8, 12));
        assert(s.subrange(12, 16) =~= bytes@.subrange(start + 12, start + 16));
        lemma_le_value_bound(s.subrange(12, 16));
        assert(s.subrange(16, 20) =~= bytes@.subrange(start + 16, start + 20));
        lemma_le_value_bound(s.subrange(16, 20));
        assert(s.subrange(20, 24) =~= bytes@.subrange(start + 20, start + 24));
        lemma_le_value_bound(s.subrange(20, 24));
        assert(s.subrange(24, 28) =~= bytes@.subrange(start + 24, start + 28));
        lemma_le_value_bound(s.subrange(24, 28));
        assert(s.subrange(28, 32) =~= bytes@.subrange(start + 28, start + 32));
        lemma_le_value_bound(s.subrange(28, 32));
        assert(s.subrange(32, 36) =~= bytes@.subrange(start + 32, start + 36));
        lemma_le_value_bound(s.subrange(32, 36));
    }
    PaletteMatching {
        lightness: read_le(bytes, start, 4) as u32,
        chroma: read_le(bytes, start + 4, 4) as u32,
        hue: read_le(bytes, start + 8, 4) as u32,
        lightness_multiply: read_le(bytes, start + 12, 4) as u32,
        lightness_add: read_le(bytes, start + 16, 4) as u32,
        chroma_multiply: read_le(bytes, start + 20, 4) as u32,
        chroma_add: read_le(bytes, start + 24, 4) as u32,
        grey_chroma_threshold: read_le(bytes, start + 28, 4) as u32,
        hue_add: read_le(bytes, start + 32, 4) as u32,
    }
}

/// Whether two matching settings encode to the same bytes.
pub fn palette_matching_eq(a: PaletteMatching, b: PaletteMatching) -> (r: bool)
    ensures
        r == (a == b),
        r == (matching_bytes(a) == matching_bytes(b)),
{
    proof {
        lemma_matching_bytes_injective(a, b);
    }
    a == b
}

/// Hashes `a`, then `b`, then `c` from the FNV offset basis.
fn hash_three(a: &[u8], b: &[u8], c: &[u8]) -> (h: u64)
    ensures
        h == fnv_fold(FNV_OFFSET, a@ + b@ + c@),
{
    let mut h = FNV_OFFSET;
    feed_hash_bytes(&mut h, a);
    feed_hash_bytes(&mut h, b);
    feed_hash_bytes(&mut h, c);
    proof {
        lemma_fnv_fold_concat(FNV_OFFSET, a@, b@);
        lemma_fnv_fold_concat(FNV_OFFSET, a@ + b@, c@);
    }
    h
}

/// The hash an IPSMAP1 lookup must carry for `config`: the version tag, the
/// colors, the three weights and, when some input offset is set, the six
/// offsets, hashed with 64-bit FNV-1a.
pub fn palette_hash(config: &PaletteConfig) -> (h: u64)
    ensures
        h == spec_palette_hash(config@),
{
    let version = version_bytes();
    let colors = color_bytes_vec(config.colors.as_slice());
    let matching = palette_matching_bytes(config.matching);
    proof {
        lemma_matching_bytes_len(config.matching);
    }
    let h = if config.matching.has_input_offset() {
        hash_three(version.as_slice(), colors.as_slice(), matching.as_slice())
    } else {
        hash_three(version.as_slice(), colors.as_slice(), slice_subrange(matching.as_slice(), 0, 12))
    };
    proof {
        assert(matching@.subrange(0, 12) =~= matching@.take(12));
    }
    h
}

/// The hash stored in IPSMAP6 lookups: version tag, colors, matching bytes and
/// entries, hashed with 64-bit FNV-1a.
pub fn lookup_hash(config: &PaletteConfig, entries: &[u8]) -> (h: u64)
    ensures
        h == spec_lookup_hash(config@, entries@),
{
    let version = version_bytes();
    let colors = color_bytes_vec(config.colors.as_slice());
    let matching = palette_matching_bytes(config.matching);
    let mut h = FNV_OFFSET;
    feed_hash_bytes(&mut h, version.as_slice());
    feed_hash_bytes(&mut h, colors.as_slice());
    feed_hash_bytes(&mut h, matching.as_slice());
    feed_hash_bytes(&mut h, entries);
    proof {
        lemma_fnv_fold_concat(FNV_OFFSET, version@, colors@);
        lemma_fnv_fold_concat(FNV_OFFSET, version@ + colors@, matching@);
        lemma_fnv_fold_concat(FNV_OFFSET, version@ + colors@ + matching@, entries@);
    }
    h
}

/// The hash stored in IPSMAP4 and IPSMAP5 lookups: version tag, colors and
/// entries, hashed with 64-bit FNV-1a.
pub fn legacy_lookup_hash(colors: &[[u8; 4]], entries: &[u8]) -> (h: u64)
    ensures
        h == spec_legacy_lookup_hash(colors@, entries@),
{
    let version = version_bytes();
    let color_bytes = color_bytes_vec(colors);
    hash_three(version.as_slice(), color_bytes.as_slice(), entries)
}

/// Encodes a palette, its matching settings and one or two lookup tables as an
/// IPSMAP6 lookup.
pub fn encode_lookup(config: &PaletteConfig, entries: &[u8]) -> (r: Result<Vec<u8>, LookupError>)
    ensures
        bytes_result_view(r) == spec_encode_lookup(config@, entries@),
{
    if entries.len() != LUT_ENTRY_COUNT && entries.len() != LUT_ENTRY_COUNT * 2 {
        return Err(LookupError::EntryCountInvalid { got: entries.len() });
    }
    if config.colors.len() == 0 || config.colors.len() > 256 {
        return Err(LookupError::PaletteColorCount);
    }
    let hash = lookup_hash(config, entries);
    let mut bytes: Vec<u8> = Vec::new();
    let magic = magic_bytes(6);
    push_bytes(&mut bytes, magic.as_slice());
    push_le(&mut bytes, hash, 8);
    push_le(&mut bytes, config.colors.len() as u64, 2);
    push_le(&mut bytes, LUT_V6_MATCHING_LEN as u64, 2);
    push_le(&mut bytes, entries.len() as u64, 4);
    let colors = color_bytes_vec(config.colors.as_slice());
    push_bytes(&mut bytes, colors.as_slice());
    let matching = palette_matching_bytes(config.matching);
    push_bytes(&mut bytes, matching.as_slice());
    push_bytes(&mut bytes, entries);
    assert(bytes@ =~= ipsmap6_bytes(config@, entries@));
    Ok(bytes)
}

/// Whether `bytes` starts with the magic of format `version`.
fn starts_with_magic(bytes: &[u8], version: u8) -> (b: bool)
    requires
        version < 10,
    ensures
        b == has_magic(bytes@, version),
{
    if bytes.len() < 8 {
        return false;
    }
    let b = bytes[0] == 73 && bytes[1] == 80 && bytes[2] == 83 && bytes[3] == 77 && bytes[4] == 65
        && bytes[5] == 80 && bytes[6] == 48 + version && bytes[7] == 0;
    proof {
        if b {
            assert(bytes@.take(8) =~= magic(version));
        } else {
            if bytes@.take(8) == magic(version) {
                assert(bytes@.take(8)[0] == magic(version)[0]);
                assert(bytes@.take(8)[1] == magic(version)[1]);
                assert(bytes@.take(8)[2] == magic(version)[2]);
                assert(bytes@.take(8)[3] == magic(version)[3]);
                assert(bytes@.take(8)[4] == magic(version)[4]);
                assert(bytes@.take(8)[5] == magic(version)[5]);
                assert(bytes@.take(8)[6] == magic(version)[6]);
                assert(bytes@.take(8)[7] == magic(version)[7]);
            }
        }
    }
    b
}

/// Reads `count` four-byte colors starting at `start`.
fn colors_from_bytes(bytes: &[u8], start: usize, count: usize) -> (colors: Vec<[u8; 4]>)
    requires
        start + 4 * count <= bytes@.len(),
    ensures
        colors@ == colors_of(bytes@.subrange(start as int, start + 4 * count)),
{
    let ghost s = bytes@.subrange(start as int, start + 4 * count);
    let total = bytes.len();
    let mut colors: Vec<[u8; 4]> = Vec::new();
    let mut i: usize = 0;
    while i < count
        invariant
            i <= count,
            start + 4 * count <= total,
            total == bytes@.len(),
            s == bytes@.subrange(start as int, start + 4 * count),
            colors@ =~= colors_of(s).take(i as int),
        decreases count - i,
    {
        let at = start + 4 * i;
        let color = [bytes[at], bytes[at + 1], bytes[at + 2], bytes[at + 3]];
        colors.push(color);
        assert(colors_of(s)[i as int] == color);
        assert(colors@ =~= colors_of(s).take(i + 1));
        i = i + 1;
    }
    assert(colors_of(s).take(count as int) =~= colors_of(s));
    colors
}

/// Whether two palettes hold the same colors in the same order.
fn colors_eq(a: &[[u8; 4]], b: &[[u8; 4]]) -> (r: bool)
    ensures
        r == (a@ == b@),
{
    if a.len() != b.len() {
        return false;
    }
    let n = a.len();
    let mut i: usize = 0;
    while i < n
        invariant
            i <= n,
            n == a@.len(),
            n == b@.len(),
            forall|j: int| 0 <= j < i ==> a@[j] == b@[j],
        decreases n - i,
    {
        let x = a[i];
        let y = b[i];
        if x[0] != y[0] || x[1] != y[1] || x[2] != y[2] || x[3] != y[3] {
            assert(a@[i as int] != b@[i as int]);
            return false;
        }
        assert(x@ =~= y@);
        i = i + 1;
    }
    assert(a@ =~= b@);
    true
}

/// Copies a palette.
fn copy_config(config: &PaletteConfig) -> (r: PaletteConfig)
    ensures
        r@ == config@,
{
    let colors = slice_to_vec(config.colors.as_slice());
    PaletteConfig { colors, matching: config.matching }
}

/// The view of a decoded IPSMAP6 parts result.
pub open spec fn parts_result_view(r: Result<(u64, PaletteConfig, Vec<u8>), LookupError>) -> Result<
    (u64, PaletteConfigModel, Seq<u8>),
    LookupError,
> {
    match r {
        Ok((h, c, e)) => Ok((h, c@, e@)),
        Err(e) => Err(e),
    }
}

proof fn lemma_field_bounds(bytes: Seq<u8>)
    requires
        bytes.len() >= 24,
    ensures
        field(bytes, 8, 16) < 0x1_0000_0000_0000_0000,
        field(bytes, 16, 18) < 0x1_0000,
        field(bytes, 18, 20) < 0x1_0000,
        field(bytes, 20, 24) < 0x1_0000_0000,
{
    lemma_byte_pows();
    lemma_le_value_bound(bytes.subrange(8, 16));
    lemma_le_value_bound(bytes.subrange(16, 18));
    lemma_le_value_bound(bytes.subrange(18, 20));
    lemma_le_value_bound(bytes.subrange(20, 24));
}

/// Splits IPSMAP6 bytes into stored hash, palette with matching settings, and
/// entries, checking the header against the length (not the hash).
fn decode_lookup_v6_parts(bytes: &[u8]) -> (r: Result<(u64, PaletteConfig, Vec<u8>), LookupError>)
    ensures
        parts_result_view(r) == spec_v6_parts(bytes@),
{
    if bytes.len() < LUT_V4_HEADER_LEN {
        return Err(LookupError::TooShort { len: bytes.len(), expected: LUT_V4_HEADER_LEN });
    }
    proof {
        lemma_field_bounds(bytes@);
    }
    let hash = read_le(bytes, 8, 8);
    let color_count = read_le(bytes, 16, 2) as usize;
    if color_count == 0 || color_count > 256 {
        return Err(LookupError::HeaderColorCount { count: color_count });
    }
    let matching_len = read_le(bytes, 18, 2) as usize;
    if matching_len != LUT_V6_MATCHING_LEN {
        return Err(LookupError::MatchingLength { len: matching_len });
    }
    let entry_count = read_le(bytes, 20, 4) as usize;
    if entry_count != LUT_ENTRY_COUNT && entry_count != LUT_ENTRY_COUNT * 2 {
        return Err(LookupError::HeaderEntryCountV6 { count: entry_count });
    }
    let matching_start = LUT_V4_HEADER_LEN + color_count * 4;
    let entries_start = matching_start + matching_len;
    let expected_len = entries_start + entry_count;
    if bytes.len() != expected_len {
        return Err(LookupError::TotalLengthV6 { len: bytes.len(), expected: expected_len });
    }
    let colors = colors_from_bytes(bytes, LUT_V4_HEADER_LEN, color_count);
    let matching = palette_matching_from_bytes(bytes, matching_start);
    let entries = slice_to_vec(slice_subrange(bytes, entries_start, bytes.len()));
    Ok((hash, PaletteConfig { colors, matching }, entries))
}

fn decode_lookup_bundle_v6(bytes: &[u8]) -> (r: Result<PaletteLookup, LookupError>)
    ensures
        lookup_result_view(r) == spec_bundle_v6(bytes@),
{
    let (hash, config, entries) = match decode_lookup_v6_parts(bytes) {
        Ok(parts) => parts,
        Err(e) => return Err(e),
    };
    if lookup_hash(&config, entries.as_slice()) != hash {
        return Err(LookupError::BundleHashMismatch);
    }
    Ok(PaletteLookup { hash, entries, config })
}

/// The header checks shared by IPSMAP4 and IPSMAP5; returns the color count.
fn v4_v5_layout(bytes: &[u8], expected_entry_count: usize) -> (r: Result<usize, LookupError>)
    requires
        expected_entry_count <= 2 * LUT_ENTRY_COUNT,
    ensures
        match r {
            Ok(count) => spec_v4_v5_layout(bytes@, expected_entry_count as nat) == Ok::<nat, LookupError>(count as nat),
            Err(e) => spec_v4_v5_layout(bytes@, expected_entry_count as nat) == Err::<nat, LookupError>(e),
        },
{
    if bytes.len() < LUT_V4_HEADER_LEN {
        return Err(LookupError::TooShort { len: bytes.len(), expected: LUT_V4_HEADER_LEN });
    }
    proof {
        lemma_field_bounds(bytes@);
    }
    let color_count = read_le(bytes, 16, 2) as usize;
    if color_count == 0 || color_count > 256 {
        return Err(LookupError::HeaderColorCount { count: color_count });
    }
    let entry_count = read_le(bytes, 20, 4) as usize;
    if entry_count != expected_entry_count {
        return Err(LookupError::HeaderEntryCount { count: entry_count, expected: expected_entry_count });
    }
    let expected_len = LUT_V4_HEADER_LEN + color_count * 4 + expected_entry_count;
    if bytes.len() != expected_len {
        return Err(LookupError::TotalLength { len: bytes.len(), expected: expected_len });
    }
    Ok(color_count)
}

fn decode_lookup_bundle_v4_or_v5(bytes: &[u8], expected_entry_count: usize) -> (r: Result<
    PaletteLookup,
    LookupError,
>)
    requires
        expected_entry_count <= 2 * LUT_ENTRY_COUNT,
    ensures
        lookup_result_view(r) == spec_bundle_v4_v5(bytes@, expected_entry_count as nat),
{
    let color_count = match v4_v5_layout(bytes, expected_entry_count) {
        Ok(count) => count,
        Err(e) => return Err(e),
    };
    let hash = read_le(bytes, 8, 8);
    let entries_start = LUT_V4_HEADER_LEN + color_count * 4;
    let colors = colors_from_bytes(bytes, LUT_V4_HEADER_LEN, color_count);
    let entries = slice_to_vec(slice_subrange(bytes, entries_start, bytes.len()));
    if legacy_lookup_hash(colors.as_slice(), entries.as_slice()) != hash {
        return Err(LookupError::LegacyHashMismatch);
    }
    let config = PaletteConfig { colors, matching: PaletteMatching::default() };
    Ok(PaletteLookup { hash, entries, config })
}

fn decode_lookup_config_v4_or_v5(bytes: &[u8], expected_entry_count: usize) -> (r: Result<
    PaletteConfig,
    LookupError,
>)
    requires
        expected_entry_count <= 2 * LUT_ENTRY_COUNT,
    ensures
        match r {
            Ok(c) => spec_v4_v5_layout(bytes@, expected_entry_count as nat) is Ok && c@ == (
            PaletteConfigModel {
                colors: colors_of(
                    bytes@.subrange(
                        24,
                        24 + 4 * (spec_v4_v5_layout(bytes@, expected_entry_count as nat)->Ok_0 as int),
                    ),
                ),
                matching: default_matching(),
            }),
            Err(e) => spec_v4_v5_layout(bytes@, expected_entry_count as nat) == Err::<nat, LookupError>(e),
        },
{
    let color_count = match v4_v5_layout(bytes, expected_entry_count) {
        Ok(count) => count,
        Err(e) => return Err(e),
    };
    let colors = colors_from_bytes(bytes, LUT_V4_HEADER_LEN, color_count);
    Ok(PaletteConfig { colors, matching: PaletteMatching::default() })
}

/// Decodes a self-contained IPSMAP4, IPSMAP5 or IPSMAP6 lookup, checking its
/// stored hash against its palette, metadata and entries.
pub fn decode_lookup_bundle(bytes: &[u8]) -> (r: Result<PaletteLookup, LookupError>)
    ensures
        lookup_result_view(r) == spec_decode_lookup_bundle(bytes@),
{
    if starts_with_magic(bytes, 6) {
        return decode_lookup_bundle_v6(bytes);
    }
    if starts_with_magic(bytes, 5) {
        return decode_lookup_bundle_v4_or_v5(bytes, LUT_ENTRY_COUNT * 2);
    }
    if starts_with_magic(bytes, 4) {
        return decode_lookup_bundle_v4_or_v5(bytes, LUT_ENTRY_COUNT);
    }
    if starts_with_magic(bytes, 3) {
        return Err(LookupError::Ipsmap3Unsupported);
    }
    if starts_with_magic(bytes, 2) {
        return Err(LookupError::Ipsmap2Unsupported);
    }
    Err(LookupError::NotSelfContained)
}

/// Recovers the palette embedded in a self-contained lookup without checking
/// its hash, so that a stale lookup can be rebuilt from its own palette.
pub fn decode_lookup_config_unchecked(bytes: &[u8]) -> (r: Result<PaletteConfig, LookupError>)
    ensures
        config_result_view(r) == spec_decode_lookup_config_unchecked(bytes@),
{
    if starts_with_magic(bytes, 6) {
        return match decode_lookup_v6_parts(bytes) {
            Ok((_, config, _)) => Ok(config),
            Err(e) => Err(e),
        };
    }
    if starts_with_magic(bytes, 5) {
        return decode_lookup_config_v4_or_v5(bytes, LUT_ENTRY_COUNT * 2);
    }
    if starts_with_magic(bytes, 4) {
        return decode_lookup_config_v4_or_v5(bytes, LUT_ENTRY_COUNT);
    }
    Err(LookupError::NotRecoverable)
}

/// Decodes a lookup for the palette `config`: a self-contained lookup must
/// carry the same colors (and, for IPSMAP6, the same matching settings); a
/// legacy IPSMAP1 lookup must carry the hash and color count of `config` and
/// exactly one table.
pub fn decode_lookup(bytes: &[u8], config: &PaletteConfig) -> (r: Result<PaletteLookup, LookupError>)
    ensures
        lookup_result_view(r) == spec_decode_lookup(bytes@, config@),
{
    let v6 = starts_with_magic(bytes, 6);
    if v6 || starts_with_magic(bytes, 5) || starts_with_magic(bytes, 4) {
        let lookup = match decode_lookup_bundle(bytes) {
            Ok(lookup) => lookup,
            Err(e) => return Err(e),
        };
        if !colors_eq(lookup.config.colors.as_slice(), config.colors.as_slice()) {
            return Err(LookupError::ColorsMismatch);
        }
        if v6 && !palette_matching_eq(lookup.config.matching, config.matching) {
            return Err(LookupError::MatchingMismatch);
        }
        return Ok(lookup);
    }
    if starts_with_magic(bytes, 3) {
        return Err(LookupError::Ipsmap3Unsupported);
    }
    if starts_with_magic(bytes, 2) {
        return Err(LookupError::Ipsmap2Unsupported);
    }
    if bytes.len() < LUT_V1_HEADER_LEN {
        return Err(LookupError::TooShort { len: bytes.len(), expected: LUT_V1_HEADER_LEN });
    }
    if !starts_with_magic(bytes, 1) {
        return Err(LookupError::MagicMismatch);
    }
    proof {
        lemma_field_bounds(bytes@);
    }
    let hash = read_le(bytes, 8, 8);
    if hash != palette_hash(config) {
        return Err(LookupError::PaletteHashMismatch);
    }
    let color_count = read_le(bytes, 16, 2) as usize;
    if color_count != config.colors.len() {
        return Err(LookupError::ColorCountMismatch);
    }
    let entries = slice_to_vec(slice_subrange(bytes, LUT_V1_HEADER_LEN, bytes.len()));
    if entries.len() != LUT_ENTRY_COUNT {
        return Err(LookupError::EntryLength { got: entries.len() });
    }
    Ok(PaletteLookup { hash, entries, config: copy_config(config) })
}

pub proof fn lemma_color_bytes_len(colors: Seq<[u8; 4]>)
    ensures
        color_bytes(colors).len() == 4 * colors.len(),
    decreases colors.len(),
{
    if colors.len() > 0 {
        lemma_color_bytes_len(colors.drop_last());
    }
}

pub proof fn lemma_color_bytes_index(colors: Seq<[u8; 4]>, i: int, j: int)
    requires
        0 <= i < colors.len(),
        0 <= j < 4,
    ensures
        color_bytes(colors)[4 * i + j] == colors[i][j],
    decreases colors.len(),
{
    lemma_color_bytes_len(colors.drop_last());
    if i < colors.len() - 1 {
        lemma_color_bytes_index(colors.drop_last(), i, j);
    }
}

/// Reading back flattened colors gives the colors.
pub proof fn lemma_colors_of_color_bytes(colors: Seq<[u8; 4]>)
    ensures
        colors_of(color_bytes(colors)) == colors,
{
    let b = color_bytes(colors);
    lemma_color_bytes_len(colors);
    assert forall|i: int| 0 <= i < colors.len() implies #[trigger] colors_of(b)[i] == colors[i] by {
        lemma_color_bytes_index(colors, i, 0);
        lemma_color_bytes_index(colors, i, 1);
        lemma_color_bytes_index(colors, i, 2);
        lemma_color_bytes_index(colors, i, 3);
        assert(colors_of(b)[i]@ =~= colors[i]@);
    }
    assert(colors_of(b) =~= colors);
}

/// Flattening colors read from bytes gives the bytes, when they are whole colors.
pub proof fn lemma_color_bytes_of_colors(s: Seq<u8>)
    requires
        s.len() % 4 == 0,
    ensures
        color_bytes(colors_of(s)) == s,
{
    let cs = colors_of(s);
    lemma_color_bytes_len(cs);
    assert forall|k: int| 0 <= k < s.len() implies #[trigger] color_bytes(cs)[k] == s[k] by {
        lemma_color_bytes_index(cs, k / 4, k % 4);
    }
    assert(color_bytes(cs) =~= s);
}

proof fn lemma_ipsmap6_layout(config: PaletteConfigModel, entries: Seq<u8>)
    requires
        0 < config.colors.len() <= 256,
        valid_entry_count(entries.len() as int),
    ensures
        ({
            let b = ipsmap6_bytes(config, entries);
            let n = config.colors.len() as int;
            &&& b.len() == 60 + 4 * n + entries.len()
            &&& has_magic(b, 6)
            &&& !has_magic(b, 5) && !has_magic(b, 4) && !has_magic(b, 3) && !has_magic(b, 2)
            &&& b.take(8) != magic(1)
            &&& field(b, 8, 16) == spec_lookup_hash(config, entries)
            &&& field(b, 16, 18) == n
            &&& field(b, 18, 20) == LUT_V6_MATCHING_LEN
            &&& field(b, 20, 24) == entries.len()
            &&& b.subrange(24, 24 + 4 * n) == color_bytes(config.colors)
            &&& b.subrange(24 + 4 * n, 60 + 4 * n) == matching_bytes(config.matching)
            &&& b.subrange(60 + 4 * n, b.len() as int) == entries
        }),
{
    let b = ipsmap6_bytes(config, entries);
    let n = config.colors.len() as int;
    let h = spec_lookup_hash(config, entries);
    lemma_byte_pows();
    lemma_le_bytes_len(h as nat, 8);
    lemma_le_bytes_len(config.colors.len(), 2);
    lemma_le_bytes_len(LUT_V6_MATCHING_LEN as nat, 2);
    lemma_le_bytes_len(entries.len(), 4);
    lemma_color_bytes_len(config.colors);
    lemma_matching_bytes_len(config.matching);
    lemma_le_roundtrip(h as nat, 8);
    lemma_le_roundtrip(config.colors.len(), 2);
    lemma_le_roundtrip(LUT_V6_MATCHING_LEN as nat, 2);
    lemma_le_roundtrip(entries.len(), 4);
    assert(b.take(8) =~= magic(6));
    assert(b.subrange(8, 16) =~= le_bytes(h as nat, 8));
    assert(b.subrange(16, 18) =~= le_bytes(config.colors.len(), 2));
    assert(b.subrange(18, 20) =~= le_bytes(LUT_V6_MATCHING_LEN as nat, 2));
    assert(b.subrange(20, 24) =~= le_bytes(entries.len(), 4));
    assert(b.subrange(24, 24 + 4 * n) =~= color_bytes(config.colors));
    assert(b.subrange(24 + 4 * n, 60 + 4 * n) =~= matching_bytes(config.matching));
    assert(b.subrange(60 + 4 * n, b.len() as int) =~= entries);
    assert(magic(6)[6] != magic(5)[6]);
    assert(magic(6)[6] != magic(4)[6]);
    assert(magic(6)[6] != magic(3)[6]);
    assert(magic(6)[6] != magic(2)[6]);
    assert(magic(6)[6] != magic(1)[6]);
}

/// Decoding an encoded lookup gives back its palette, matching settings and
/// entries, with the hash the encoder stored.
pub proof fn lemma_decode_encode_roundtrip(config: PaletteConfigModel, entries: Seq<u8>)
    requires
        spec_encode_lookup(config, entries) is Ok,
    ensures
        spec_decode_lookup_bundle(spec_encode_lookup(config, entries)->Ok_0) == Ok::<
            LookupModel,
            LookupError,
        >(LookupModel { hash: spec_lookup_hash(config, entries), entries, config }),
{
    lemma_ipsmap6_layout(config, entries);
    lemma_colors_of_color_bytes(config.colors);
    lemma_matching_of_bytes(config.matching);
    let b = ipsmap6_bytes(config, entries);
    let n = config.colors.len() as int;
    assert(spec_v6_parts(b) == Ok::<(u64, PaletteConfigModel, Seq<u8>), LookupError>(
        (spec_lookup_hash(config, entries), config, entries),
    ));
}

/// The palette and matching settings of an encoded lookup can be recovered
/// from its bytes, whatever its stored hash says.
pub proof fn lemma_recover_encoded_config(config: PaletteConfigModel, entries: Seq<u8>, stale: Seq<u8>)
    requires
        spec_encode_lookup(config, entries) is Ok,
        stale.len() == ipsmap6_bytes(config, entries).len(),
        forall|k: int|
            0 <= k < stale.len() && !(8 <= k < 16) ==> stale[k] == ipsmap6_bytes(config, entries)[k],
    ensures
        spec_decode_lookup_config_unchecked(stale) == Ok::<PaletteConfigModel, LookupError>(config),
{
    lemma_ipsmap6_layout(config, entries);
    lemma_colors_of_color_bytes(config.colors);
    lemma_matching_of_bytes(config.matching);
    let b = ipsmap6_bytes(config, entries);
    let n = config.colors.len() as int;
    assert(stale.take(8) =~= b.take(8));
    assert(stale.subrange(16, 18) =~= b.subrange(16, 18));
    assert(stale.subrange(18, 20) =~= b.subrange(18, 20));
    assert(stale.subrange(20, 24) =~= b.subrange(20, 24));
    assert(stale.subrange(24, 24 + 4 * n) =~= b.subrange(24, 24 + 4 * n));
    assert(stale.subrange(24 + 4 * n, 60 + 4 * n) =~= b.subrange(24 + 4 * n, 60 + 4 * n));
    assert(has_magic(stale, 6));
}

/// A lookup encoded for a palette is accepted when decoded for that palette.
pub proof fn lemma_decode_lookup_accepts_own_config(config: PaletteConfigModel, entries: Seq<u8>)
    requires
        spec_encode_lookup(config, entries) is Ok,
    ensures
        spec_decode_lookup(spec_encode_lookup(config, entries)->Ok_0, config) == Ok::<
            LookupModel,
            LookupError,
        >(LookupModel { hash: spec_lookup_hash(config, entries), entries, config }),
{
    lemma_decode_encode_roundtrip(config, entries);
    lemma_ipsmap6_layout(config, entries);
}

/// A lookup encoded for one palette is refused for a palette with the same
/// colors but other matching settings: it was baked for the wrong settings.
pub proof fn lemma_decode_lookup_refuses_other_matching(
    built_for: PaletteConfigModel,
    entries: Seq<u8>,
    asked_for: PaletteConfigModel,
)
    requires
        spec_encode_lookup(built_for, entries) is Ok,
        asked_for.colors == built_for.colors,
        asked_for.matching != built_for.matching,
    ensures
        spec_decode_lookup(spec_encode_lookup(built_for, entries)->Ok_0, asked_for) == Err::<
            LookupModel,
            LookupError,
        >(LookupError::MatchingMismatch),
{
    lemma_decode_encode_roundtrip(built_for, entries);
    lemma_ipsmap6_layout(built_for, entries);
}

/// A lookup encoded for one palette is refused for a palette with other
/// colors.
pub proof fn lemma_decode_lookup_refuses_other_colors(
    built_for: PaletteConfigModel,
    entries: Seq<u8>,
    asked_for: PaletteConfigModel,
)
    requires
        spec_encode_lookup(built_for, entries) is Ok,
        asked_for.colors != built_for.colors,
    ensures
        spec_decode_lookup(spec_encode_lookup(built_for, entries)->Ok_0, asked_for) == Err::<
            LookupModel,
            LookupError,
        >(LookupError::ColorsMismatch),
{
    lemma_decode_encode_roundtrip(built_for, entries);
    lemma_ipsmap6_layout(built_for, entries);
}

/// A self-contained IPSMAP6 lookup is accepted only for the palette it
/// carries: whatever the bytes, an accepted lookup's colors and matching
/// settings are those asked for.
pub proof fn lemma_accepted_ipsmap6_matches_config(bytes: Seq<u8>, config: PaletteConfigModel)
    requires
        has_magic(bytes, 6),
        spec_decode_lookup(bytes, config) is Ok,
    ensures
        spec_decode_lookup(bytes, config)->Ok_0.config == config,
{
}

// ---------------------------------------------------------------------------
// Error messages

/// The message of a lookup error.
pub open spec fn lookup_error_text(e: LookupError) -> Seq<char> {
    match e {
        LookupError::EntryCountInvalid { got } => "LUT must contain 16777216 altered entries or 16777216 altered plus 16777216 direct entries, got "@
            + decimal_text(got as nat),
        LookupError::PaletteColorCount => "palette must contain 1-256 colors"@,
        LookupError::TooShort { len, expected } => "LUT has "@ + decimal_text(len as nat) + " bytes, expected at least "@
            + decimal_text(expected as nat),
        LookupError::HeaderColorCount { count } => "LUT header declares "@ + decimal_text(count as nat)
            + " colors, expected 1-256"@,
        LookupError::MatchingLength { len } => "IPSMAP6 header declares "@ + decimal_text(len as nat)
            + " matching bytes, expected 36"@,
        LookupError::HeaderEntryCountV6 { count } => "LUT header declares "@ + decimal_text(count as nat)
            + " entries, expected 16777216 or 33554432"@,
        LookupError::HeaderEntryCount { count, expected } => "LUT header declares "@ + decimal_text(count as nat)
            + " entries, expected "@ + decimal_text(expected as nat),
        LookupError::TotalLengthV6 { len, expected } => "LUT has "@ + decimal_text(len as nat) + " bytes, expected "@
            + decimal_text(expected as nat) + " for binary palette, matching metadata, and entries"@,
        LookupError::TotalLength { len, expected } => "LUT has "@ + decimal_text(len as nat) + " bytes, expected "@
            + decimal_text(expected as nat) + " for binary palette and entries"@,
        LookupError::BundleHashMismatch => "binary palette, matching metadata, and entries do not match LUT hash"@,
        LookupError::LegacyHashMismatch => "binary palette and entries do not match LUT hash"@,
        LookupError::NotSelfContained => "LUT is not a self-contained IPSMAP4/IPSMAP5/IPSMAP6 lookup"@,
        LookupError::NotRecoverable => "LUT is not a recoverable self-contained IPSMAP4/IPSMAP5/IPSMAP6 lookup"@,
        LookupError::Ipsmap3Unsupported => "IPSMAP3 matching-metadata lookups are no longer supported; regenerate an IPSMAP6 lookup"@,
        LookupError::Ipsmap2Unsupported => "IPSMAP2 embedded-TOML lookups are no longer supported; regenerate an IPSMAP6 lookup"@,
        LookupError::ColorsMismatch => "LUT palette colors do not match palette config"@,
        LookupError::MatchingMismatch => "LUT matching metadata does not match palette config"@,
        LookupError::MagicMismatch => "LUT magic/version mismatch"@,
        LookupError::PaletteHashMismatch => "LUT does not match palette colors and matching settings"@,
        LookupError::ColorCountMismatch => "LUT color count does not match palette"@,
        LookupError::EntryLength { got } => "LUT has "@ + decimal_text(got as nat) + " entries, expected 16777216"@,
    }
}

impl LookupError {
    /// The message of the error.
    pub fn message(&self) -> (m: String)
        ensures
            m@ == lookup_error_text(*self),
    {
        match self {
            LookupError::EntryCountInvalid { got } => {
                let mut m = owned(
                    "LUT must contain 16777216 altered entries or 16777216 altered plus 16777216 direct entries, got ",
                );
                push_count(&mut m, *got);
                m
            },
            LookupError::PaletteColorCount => owned("palette must contain 1-256 colors"),
            LookupError::TooShort { len, expected } => {
                let mut m = owned("LUT has ");
                push_count(&mut m, *len);
                m.append(" bytes, expected at least ");
                push_count(&mut m, *expected);
                m
            },
            LookupError::HeaderColorCount { count } => {
                let mut m = owned("LUT header declares ");
                push_count(&mut m, *count);
                m.append(" colors, expected 1-256");
                m
            },
            LookupError::MatchingLength { len } => {
                let mut m = owned("IPSMAP6 header declares ");
                push_count(&mut m, *len);
                m.append(" matching bytes, expected 36");
                m
            },
            LookupError::HeaderEntryCountV6 { count } => {
                let mut m = owned("LUT header declares ");
                push_count(&mut m, *count);
                m.append(" entries, expected 16777216 or 33554432");
                m
            },
            LookupError::HeaderEntryCount { count, expected } => {
                let mut m = owned("LUT header declares ");
                push_count(&mut m, *count);
                m.append(" entries, expected ");
                push_count(&mut m, *expected);
                m
            },
            LookupError::TotalLengthV6 { len, expected } => {
                let mut m = owned("LUT has ");
                push_count(&mut m, *len);
                m.append(" bytes, expected ");
                push_count(&mut m, *expected);
                m.append(" for binary palette, matching metadata, and entries");
                m
            },
            LookupError::TotalLength { len, expected } => {
                let mut m = owned("LUT has ");
                push_count(&mut m, *len);
                m.append(" bytes, expected ");
                push_count(&mut m, *expected);
                m.append(" for binary palette and entries");
                m
            },
            LookupError::BundleHashMismatch => owned(
                "binary palette, matching metadata, and entries do not match LUT hash",
            ),
            LookupError::LegacyHashMismatch => owned("binary palette and entries do not match LUT hash"),
            LookupError::NotSelfContained => owned("LUT is not a self-contained IPSMAP4/IPSMAP5/IPSMAP6 lookup"),
            LookupError::NotRecoverable => owned(
                "LUT is not a recoverable self-contained IPSMAP4/IPSMAP5/IPSMAP6 lookup",
            ),
            LookupError::Ipsmap3Unsupported => owned(
                "IPSMAP3 matching-metadata lookups are no longer supported; regenerate an IPSMAP6 lookup",
            ),
            LookupError::Ipsmap2Unsupported => owned(
                "IPSMAP2 embedded-TOML lookups are no longer supported; regenerate an IPSMAP6 lookup",
            ),
            LookupError::ColorsMismatch => owned("LUT palette colors do not match palette config"),
            LookupError::MatchingMismatch => owned("LUT matching metadata does not match palette config"),
            LookupError::MagicMismatch => owned("LUT magic/version mismatch"),
            LookupError::PaletteHashMismatch => owned("LUT does not match palette colors and matching settings"),
            LookupError::ColorCountMismatch => owned("LUT color count does not match palette"),
            LookupError::EntryLength { got } => {
                let mut m = owned("LUT has ");
                push_count(&mut m, *got);
                m.append(" entries, expected 16777216");
                m
            },
        }
    }
}

// ---------------------------------------------------------------------------
// The lookup file beside a palette configuration

/// The extension of lookup files.
pub const LUT_EXTENSION: &'static str = "ipsmap";

/// What `std::path::Path::with_extension` gives for `path` and `extension`,
/// both as text.
pub uninterp spec fn path_with_extension(path: Seq<char>, extension: Seq<char>) -> Seq<char>;

/// Calls `std::path::Path::with_extension`: the path with its file name's
/// extension replaced by (or extended with) `extension`. The result is named
/// by `path_with_extension`; how the standard library splits a path into
/// components is not restated here. The standard library panics when the
/// extension holds a path separator, so `extension` may hold neither a slash
/// nor a backslash.
#[verifier::external_body]
fn with_extension(path: &str, extension: &str) -> (r: String)
    requires
        !extension@.contains('/'),
        !extension@.contains('\\'),
    ensures
        r@ == path_with_extension(path@, extension@),
{
    std::path::Path::new(path).with_extension(extension).to_string_lossy().into_owned()
}

/// The path of the lookup file that belongs to the palette configuration at
/// `path`: the same path with the extension `ipsmap`.
pub fn sibling_lut_path(path: &str) -> (r: String)
    ensures
        r@ == path_with_extension(path@, LUT_EXTENSION@),
{
    proof {
        reveal_strlit("ipsmap");
        assert(!LUT_EXTENSION@.contains('/'));
        assert(!LUT_EXTENSION@.contains('\\'));
    }
    with_extension(path, LUT_EXTENSION)
}

} // verus!
