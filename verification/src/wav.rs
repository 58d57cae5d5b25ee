//! RIFF/WAVE files: the chunk walk that finds the format and the samples,
//! and the integer sample values of each supported coding.

use vstd::prelude::*;
use vstd::string::StringExecFns;
use crate::ipsi::{read_u16_le, u16_at};
use crate::lab_html::{decimal_text, push_decimal};
use crate::text::owned;

verus! {

/// A little-endian `u32` at `offset`.
pub open spec fn u32_at(b: Seq<u8>, offset: int) -> nat {
    b[offset] as nat + 256 * b[offset + 1] as nat + 65536 * b[offset + 2] as nat + 16777216 * b[offset
        + 3] as nat
}

fn read_u32_le(b: &[u8], offset: usize) -> (v: u32)
    requires
        offset + 3 < b@.len(),
    ensures
        v == u32_at(b@, offset as int),
{
    b[offset] as u32 + 256 * (b[offset + 1] as u32) + 65536 * (b[offset + 2] as u32) + 16777216 * (b[offset
        + 3] as u32)
}

/// The `fmt ` chunk fields the decoder reads.
#[derive(Clone, Copy, Debug, PartialEq, Eq, Structural)]
pub struct WavFormat {
    pub audio_format: u16,
    pub channels: u16,
    pub sample_rate: u32,
    pub bits_per_sample: u16,
}

/// Why a WAV file was refused.
#[derive(Clone, Copy, Debug, PartialEq, Eq, Structural)]
pub enum WavError {
    NotRiffWave,
    ChunkSizeOverflow,
    ChunkPastEnd,
    FmtTooSmall,
    MissingFmt,
    MissingData,
    ZeroChannels,
    NotByteAligned,
    NotSampleAligned,
    Unsupported { audio_format: u16, bits_per_sample: u16 },
}

/// The message of a refusal.
pub open spec fn wav_error_text(e: WavError) -> Seq<char> {
    match e {
        WavError::NotRiffWave => "not a RIFF/WAVE file"@,
        WavError::ChunkSizeOverflow => "WAV chunk size overflow"@,
        WavError::ChunkPastEnd => "WAV chunk extends past end of file"@,
        WavError::FmtTooSmall => "WAV fmt chunk is too small"@,
        WavError::MissingFmt => "WAV file is missing fmt chunk"@,
        WavError::MissingData => "WAV file is missing data chunk"@,
        WavError::ZeroChannels => "WAV file has zero channels"@,
        WavError::NotByteAligned => "WAV bits per sample must be byte-aligned"@,
        WavError::NotSampleAligned => "WAV data chunk is not sample-aligned"@,
        WavError::Unsupported { audio_format, bits_per_sample } => "unsupported WAV format: format "@
            + decimal_text(audio_format as nat) + ", "@ + decimal_text(bits_per_sample as nat) + " bits"@,
    }
}

impl WavError {
    /// The message of the refusal.
    pub fn message(&self) -> (m: String)
        ensures
            m@ == wav_error_text(*self),
    {
        match self {
            WavError::NotRiffWave => owned("not a RIFF/WAVE file"),
            WavError::ChunkSizeOverflow => owned("WAV chunk size overflow"),
            WavError::ChunkPastEnd => owned("WAV chunk extends past end of file"),
            WavError::FmtTooSmall => owned("WAV fmt chunk is too small"),
            WavError::MissingFmt => owned("WAV file is missing fmt chunk"),
            WavError::MissingData => owned("WAV file is missing data chunk"),
            WavError::ZeroChannels => owned("WAV file has zero channels"),
            WavError::NotByteAligned => owned("WAV bits per sample must be byte-aligned"),
            WavError::NotSampleAligned => owned("WAV data chunk is not sample-aligned"),
            WavError::Unsupported { audio_format, bits_per_sample } => {
                let mut m = owned("unsupported WAV format: format ");
                push_decimal(&mut m, *audio_format as u32);
                m.append(", ");
                push_decimal(&mut m, *bits_per_sample as u32);
                m.append(" bits");
                m
            },
        }
    }
}

/// The four bytes at `i` are `a b c d`.
pub open spec fn tag_at(b: Seq<u8>, i: int, a: u8, c1: u8, c2: u8, c3: u8) -> bool {
    b[i] == a && b[i + 1] == c1 && b[i + 2] == c2 && b[i + 3] == c3
}

/// The format read from a `fmt ` chunk whose body starts at `start`.
pub open spec fn format_at(b: Seq<u8>, start: int) -> WavFormat {
    WavFormat {
        audio_format: u16_at(b, start) as u16,
        channels: u16_at(b, start + 2) as u16,
        sample_rate: u32_at(b, start + 4) as u32,
        bits_per_sample: u16_at(b, start + 14) as u16,
    }
}

/// Walks the chunks from `cursor`, keeping the last `fmt ` chunk's format
/// and the last `data` chunk's byte range. A chunk's body is followed by a
/// pad byte when its size is odd.
pub open spec fn wav_chunks(b: Seq<u8>, cursor: int, format: Option<WavFormat>, data: Option<(int, int)>) -> Result<
    (Option<WavFormat>, Option<(int, int)>),
    WavError,
>
    decreases b.len() + 1 - cursor,
{
    if cursor < 0 || cursor + 8 > b.len() {
        Ok((format, data))
    } else {
        let size = u32_at(b, cursor + 4);
        let start = cursor + 8;
        let end = start + size;
        if end > usize::MAX {
            Err(WavError::ChunkSizeOverflow)
        } else if end > b.len() {
            Err(WavError::ChunkPastEnd)
        } else {
            let next = end + size % 2;
            if tag_at(b, cursor, 102, 109, 116, 32) {
                if size < 16 {
                    Err(WavError::FmtTooSmall)
                } else {
                    wav_chunks(b, next, Some(format_at(b, start)), data)
                }
            } else if tag_at(b, cursor, 100, 97, 116, 97) {
                wav_chunks(b, next, format, Some((start, end)))
            } else {
                wav_chunks(b, next, format, data)
            }
        }
    }
}

/// The format and data range of a WAV file.
pub open spec fn wav_layout(b: Seq<u8>) -> Result<(WavFormat, int, int), WavError> {
    if b.len() < 12 || !tag_at(b, 0, 82, 73, 70, 70) || !tag_at(b, 8, 87, 65, 86, 69) {
        Err(WavError::NotRiffWave)
    } else {
        match wav_chunks(b, 12, None, None) {
            Err(e) => Err(e),
            Ok((None, _)) => Err(WavError::MissingFmt),
            Ok((Some(_), None)) => Err(WavError::MissingData),
            Ok((Some(f), Some((s, e)))) => if f.channels == 0 {
                Err(WavError::ZeroChannels)
            } else {
                Ok((f, s, e))
            },
        }
    }
}

/// How the samples of a supported format are coded.
#[derive(Clone, Copy, Debug, PartialEq, Eq, Structural)]
pub enum WavCoding {
    /// Unsigned 8-bit PCM; values are relative to 128, full scale 128.
    Pcm8,
    /// Signed 16-bit PCM, full scale 32768.
    Pcm16,
    /// Signed 24-bit PCM, full scale 8388608.
    Pcm24,
    /// Signed 32-bit PCM, full scale 2147483648.
    Pcm32,
    /// IEEE 32-bit floats; values are the bits.
    Float32,
}

/// The coding of a format and sample width, if supported.
pub open spec fn coding_of(audio_format: u16, bits_per_sample: u16) -> Option<WavCoding> {
    if audio_format == 1 && bits_per_sample == 8 {
        Some(WavCoding::Pcm8)
    } else if audio_format == 1 && bits_per_sample == 16 {
        Some(WavCoding::Pcm16)
    } else if audio_format == 1 && bits_per_sample == 24 {
        Some(WavCoding::Pcm24)
    } else if audio_format == 1 && bits_per_sample == 32 {
        Some(WavCoding::Pcm32)
    } else if audio_format == 3 && bits_per_sample == 32 {
        Some(WavCoding::Float32)
    } else {
        None
    }
}

/// The value of the sample whose bytes start at `i`.
pub open spec fn sample_value(b: Seq<u8>, i: int, coding: WavCoding) -> int {
    match coding {
        WavCoding::Pcm8 => b[i] - 128,
        WavCoding::Pcm16 => if b[i + 1] >= 128 {
            u16_at(b, i) - 65536
        } else {
            u16_at(b, i) as int
        },
        WavCoding::Pcm24 => {
            let v = b[i] + 256 * b[i + 1] + 65536 * b[i + 2];
            if b[i + 2] >= 128 {
                v - 16777216
            } else {
                v
            }
        },
        WavCoding::Pcm32 => if b[i + 3] >= 128 {
            u32_at(b, i) - 4294967296
        } else {
            u32_at(b, i) as int
        },
        WavCoding::Float32 => u32_at(b, i) as int,
    }
}

/// A decoded WAV file: the interleaved sample values, in the coding given.
#[derive(Debug)]
pub struct WavClip {
    pub channels: u16,
    pub sample_rate: u32,
    /// `None` only when there are no samples.
    pub coding: Option<WavCoding>,
    pub samples: Vec<i64>,
}

fn coding_exec(audio_format: u16, bits_per_sample: u16) -> (r: Option<WavCoding>)
    ensures
        r == coding_of(audio_format, bits_per_sample),
{
    if audio_format == 1 && bits_per_sample == 8 {
        Some(WavCoding::Pcm8)
    } else if audio_format == 1 && bits_per_sample == 16 {
        Some(WavCoding::Pcm16)
    } else if audio_format == 1 && bits_per_sample == 24 {
        Some(WavCoding::Pcm24)
    } else if audio_format == 1 && bits_per_sample == 32 {
        Some(WavCoding::Pcm32)
    } else if audio_format == 3 && bits_per_sample == 32 {
        Some(WavCoding::Float32)
    } else {
        None
    }
}

fn sample_value_exec(b: &[u8], i: usize, coding: WavCoding) -> (v: i64)
    requires
        i + 4 <= b@.len() || (coding == WavCoding::Pcm8 && i < b@.len()) || (coding == WavCoding::Pcm16 && i
            + 2 <= b@.len()) || (coding == WavCoding::Pcm24 && i + 3 <= b@.len()),
    ensures
        v == sample_value(b@, i as int, coding),
{
    let total = b.len();
    match coding {
        WavCoding::Pcm8 => b[i] as i64 - 128,
        WavCoding::Pcm16 => {
            let u = b[i] as i64 + 256 * (b[i + 1] as i64);
            if b[i + 1] >= 128 {
                u - 65536
            } else {
                u
            }
        },
        WavCoding::Pcm24 => {
            let u = b[i] as i64 + 256 * (b[i + 1] as i64) + 65536 * (b[i + 2] as i64);
            if b[i + 2] >= 128 {
                u - 16777216
            } else {
                u
            }
        },
        WavCoding::Pcm32 => {
            let u = read_u32_le(b, i) as i64;
            if b[i + 3] >= 128 {
                u - 4294967296
            } else {
                u
            }
        },
        WavCoding::Float32 => read_u32_le(b, i) as i64,
    }
}

/// What decoding a WAV file gives: the refusal, or the channels, sample rate,
/// coding and sample values.
pub open spec fn wav_decoded(b: Seq<u8>) -> Result<(WavFormat, Option<WavCoding>, Seq<int>), WavError> {
    match wav_layout(b) {
        Err(e) => Err(e),
        Ok((f, s, e)) => {
            let width = (f.bits_per_sample / 8) as int;
            let n = e - s;
            if width == 0 {
                Err(WavError::NotByteAligned)
            } else if n % width != 0 {
                Err(WavError::NotSampleAligned)
            } else if n == 0 {
                Ok((f, coding_of(f.audio_format, f.bits_per_sample), Seq::empty()))
            } else {
                match coding_of(f.audio_format, f.bits_per_sample) {
                    None => Err(
                        WavError::Unsupported {
                            audio_format: f.audio_format,
                            bits_per_sample: f.bits_per_sample,
                        },
                    ),
                    Some(c) => Ok(
                        (f, Some(c), Seq::new((n / width) as nat, |k: int| sample_value(b, s + k * width, c))),
                    ),
                }
            }
        },
    }
}

/// Decodes a RIFF/WAVE file: checks the header, walks the chunks for the
/// last `fmt ` and `data` chunks, and reads the samples of the data chunk.
pub fn decode_wav(bytes: &[u8]) -> (r: Result<WavClip, WavError>)
    requires
        bytes@.len() <= isize::MAX,
    ensures
        match r {
            Ok(clip) => wav_decoded(bytes@) matches Ok((f, c, v)) && clip.channels == f.channels
                && clip.sample_rate == f.sample_rate && clip.coding == c && clip.samples@.map_values(
                |x: i64| x as int,
            ) == v,
            Err(e) => wav_decoded(bytes@) == Err::<(WavFormat, Option<WavCoding>, Seq<int>), WavError>(e),
        },
{
    let n = bytes.len();
    if n < 12 || !(bytes[0] == 82 && bytes[1] == 73 && bytes[2] == 70 && bytes[3] == 70) || !(bytes[8] == 87
        && bytes[9] == 65 && bytes[10] == 86 && bytes[11] == 69) {
        return Err(WavError::NotRiffWave);
    }
    let ghost b = bytes@;
    let mut cursor: usize = 12;
    let mut format: Option<WavFormat> = None;
    let mut data: Option<(usize, usize)> = None;
    while cursor + 8 <= n
        invariant
            n == b.len(),
            b == bytes@,
            n <= isize::MAX,
            12 <= cursor <= n + 1,
            b.len() >= 12 && tag_at(b, 0, 82, 73, 70, 70) && tag_at(b, 8, 87, 65, 86, 69),
            data matches Some((s, e)) ==> s <= e <= n,
            wav_chunks(b, 12, None, None) == wav_chunks(
                b,
                cursor as int,
                format,
                match data {
                    Some((s, e)) => Some((s as int, e as int)),
                    None => None,
                },
            ),
        decreases n + 1 - cursor,
    {
        let size = read_u32_le(bytes, cursor + 4);
        let start = cursor + 8;
        let end = match start.checked_add(size as usize) {
            Some(end) => end,
            None => return Err(WavError::ChunkSizeOverflow),
        };
        if end > n {
            return Err(WavError::ChunkPastEnd);
        }
        if bytes[cursor] == 102 && bytes[cursor + 1] == 109 && bytes[cursor + 2] == 116 && bytes[cursor + 3] == 32 {
            if size < 16 {
                return Err(WavError::FmtTooSmall);
            }
            format = Some(
                WavFormat {
                    audio_format: read_u16_le(bytes, start),
                    channels: read_u16_le(bytes, start + 2),
                    sample_rate: read_u32_le(bytes, start + 4),
                    bits_per_sample: read_u16_le(bytes, start + 14),
                },
            );
        } else if bytes[cursor] == 100 && bytes[cursor + 1] == 97 && bytes[cursor + 2] == 116 && bytes[cursor
            + 3] == 97 {
            data = Some((start, end));
        }
        cursor = end + (size as usize) % 2;
    }
    let format = match format {
        Some(f) => f,
        None => return Err(WavError::MissingFmt),
    };
    let (start, end) = match data {
        Some(d) => d,
        None => return Err(WavError::MissingData),
    };
    if format.channels == 0 {
        return Err(WavError::ZeroChannels);
    }
    let width = (format.bits_per_sample / 8) as usize;
    let len = end - start;
    if width == 0 {
        return Err(WavError::NotByteAligned);
    }
    if len % width != 0 {
        return Err(WavError::NotSampleAligned);
    }
    let coding = coding_exec(format.audio_format, format.bits_per_sample);
    if len == 0 {
        let samples: Vec<i64> = Vec::new();
        assert(samples@.map_values(|x: i64| x as int) =~= Seq::<int>::empty());
        return Ok(WavClip { channels: format.channels, sample_rate: format.sample_rate, coding, samples });
    }
    let c = match coding {
        Some(c) => c,
        None => return Err(
            WavError::Unsupported { audio_format: format.audio_format, bits_per_sample: format.bits_per_sample },
        ),
    };
    let count = len / width;
    let ghost expected = Seq::new(count as nat, |k: int| sample_value(b, start + k * width, c));
    let mut samples: Vec<i64> = Vec::new();
    let mut k: usize = 0;
    while k < count
        invariant
            k <= count,
            count == len / width,
            width == format.bits_per_sample / 8,
            width > 0,
            len == end - start,
            start <= end <= n,
            n == b.len(),
            b == bytes@,
            coding_of(format.audio_format, format.bits_per_sample) == Some(c),
            expected == Seq::new(count as nat, |k: int| sample_value(b, start + k * width, c)),
            samples@.len() == k,
            forall|j: int| 0 <= j < k ==> #[trigger] samples@[j] as int == expected[j],
        decreases count - k,
    {
        assert(k * width + width <= len) by (nonlinear_arith)
            requires
                k < count,
                count == len / width,
                width > 0,
        ;
        let at = start + k * width;
        samples.push(sample_value_exec(bytes, at, c));
        k = k + 1;
    }
    assert(samples@.map_values(|x: i64| x as int) =~= expected);
    Ok(WavClip { channels: format.channels, sample_rate: format.sample_rate, coding: Some(c), samples })
}


/// A 32-bit PCM sample is its four bytes read as a little-endian
/// two's-complement `i32`: a value in `[-2^31, 2^31)` that agrees with the
/// unsigned little-endian reading modulo `2^32`.
pub proof fn lemma_pcm32_sample_is_signed(b: Seq<u8>, i: int)
    ensures
        -0x8000_0000 <= sample_value(b, i, WavCoding::Pcm32) < 0x8000_0000,
        (u32_at(b, i) - sample_value(b, i, WavCoding::Pcm32)) % 0x1_0000_0000 == 0,
{
    let v = sample_value(b, i, WavCoding::Pcm32);
    let u = u32_at(b, i);
    assert(b[i + 3] >= 128 ==> u >= 0x8000_0000);
    assert(b[i + 3] < 128 ==> u < 0x8000_0000);
    assert(u < 0x1_0000_0000);
    if b[i + 3] >= 128 {
        assert(u - v == 0x1_0000_0000);
    } else {
        assert(u - v == 0);
    }
}

/// A 16-bit PCM sample is its two bytes read as a little-endian
/// two's-complement `i16`.
pub proof fn lemma_pcm16_sample_is_signed(b: Seq<u8>, i: int)
    ensures
        -0x8000 <= sample_value(b, i, WavCoding::Pcm16) < 0x8000,
        (b[i] + 256 * b[i + 1] - sample_value(b, i, WavCoding::Pcm16)) % 0x1_0000 == 0,
{
    let v = sample_value(b, i, WavCoding::Pcm16);
    if b[i + 1] >= 128 {
        assert(b[i] + 256 * b[i + 1] - v == 0x1_0000);
    } else {
        assert(b[i] + 256 * b[i + 1] - v == 0);
    }
}

/// A 24-bit PCM sample is its three bytes read as a little-endian
/// two's-complement 24-bit number.
pub proof fn lemma_pcm24_sample_is_signed(b: Seq<u8>, i: int)
    ensures
        -0x80_0000 <= sample_value(b, i, WavCoding::Pcm24) < 0x80_0000,
        (b[i] + 256 * b[i + 1] + 65536 * b[i + 2] - sample_value(b, i, WavCoding::Pcm24)) % 0x100_0000 == 0,
{
    let v = sample_value(b, i, WavCoding::Pcm24);
    if b[i + 2] >= 128 {
        assert(b[i] + 256 * b[i + 1] + 65536 * b[i + 2] - v == 0x100_0000);
    } else {
        assert(b[i] + 256 * b[i + 1] + 65536 * b[i + 2] - v == 0);
    }
}

/// An 8-bit PCM sample is unsigned with its midpoint 128 as zero.
pub proof fn lemma_pcm8_sample_is_centered(b: Seq<u8>, i: int)
    ensures
        -128 <= sample_value(b, i, WavCoding::Pcm8) < 128,
        sample_value(b, i, WavCoding::Pcm8) + 128 == b[i],
{
}

/// Every sample of a decoded 32-bit PCM file lies in the `i32` range and
/// agrees with the unsigned reading of its bytes modulo `2^32`.
pub proof fn lemma_decoded_pcm32_samples_are_signed(b: Seq<u8>, k: int)
    requires
        wav_decoded(b) matches Ok((f, c, v)) && c == Some(WavCoding::Pcm32) && 0 <= k < v.len(),
    ensures
        wav_decoded(b) matches Ok((f, c, v)) && -0x8000_0000 <= v[k] < 0x8000_0000,
{
    let (f, s, e) = wav_layout(b)->Ok_0;
    let width = (f.bits_per_sample / 8) as int;
    lemma_pcm32_sample_is_signed(b, s + k * width);
}

} // verus!
