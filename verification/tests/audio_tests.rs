use pixel_stream::sample_ring::SampleRing;
use pixel_stream::wav::{decode_wav, WavCoding, WavError};

fn wav(chunks: &[(&[u8; 4], Vec<u8>)]) -> Vec<u8> {
    let mut body = Vec::new();
    body.extend_from_slice(b"WAVE");
    for (id, data) in chunks {
        body.extend_from_slice(*id);
        body.extend_from_slice(&(data.len() as u32).to_le_bytes());
        body.extend_from_slice(data);
        if data.len() % 2 == 1 {
            body.push(0);
        }
    }
    let mut file = Vec::new();
    file.extend_from_slice(b"RIFF");
    file.extend_from_slice(&(body.len() as u32).to_le_bytes());
    file.extend_from_slice(&body);
    file
}

fn fmt(audio_format: u16, channels: u16, rate: u32, bits: u16) -> Vec<u8> {
    let mut f = Vec::new();
    f.extend_from_slice(&audio_format.to_le_bytes());
    f.extend_from_slice(&channels.to_le_bytes());
    f.extend_from_slice(&rate.to_le_bytes());
    f.extend_from_slice(&[0; 6]);
    f.extend_from_slice(&bits.to_le_bytes());
    f
}

#[test]
fn pcm16_samples_are_signed() {
    let file = wav(&[(b"fmt ", fmt(1, 2, 8000, 16)), (b"data", vec![0x00, 0x80, 0xff, 0x7f, 0x01, 0x00, 0xff, 0xff])]);
    let clip = decode_wav(&file).expect("decodes");
    assert_eq!(clip.channels, 2);
    assert_eq!(clip.sample_rate, 8000);
    assert_eq!(clip.coding, Some(WavCoding::Pcm16));
    assert_eq!(clip.samples, vec![-32768, 32767, 1, -1]);
}

#[test]
fn pcm8_and_pcm24_values() {
    let clip = decode_wav(&wav(&[(b"fmt ", fmt(1, 1, 100, 8)), (b"data", vec![0, 128, 255])])).expect("decodes");
    assert_eq!(clip.samples, vec![-128, 0, 127]);
    let clip = decode_wav(&wav(&[(b"fmt ", fmt(1, 1, 100, 24)), (b"data", vec![0xff, 0xff, 0xff, 0x01, 0, 0])]))
        .expect("decodes");
    assert_eq!(clip.samples, vec![-1, 1]);
}

#[test]
fn float_samples_keep_their_bits() {
    let bits = 0.5f32.to_bits();
    let clip = decode_wav(&wav(&[(b"fmt ", fmt(3, 1, 100, 32)), (b"data", bits.to_le_bytes().to_vec())]))
        .expect("decodes");
    assert_eq!(clip.coding, Some(WavCoding::Float32));
    assert_eq!(clip.samples, vec![bits as i64]);
}

#[test]
fn wav_refusals() {
    assert_eq!(decode_wav(b"RIFX").err(), Some(WavError::NotRiffWave));
    assert_eq!(decode_wav(&wav(&[(b"data", vec![0, 0])])).err(), Some(WavError::MissingFmt));
    assert_eq!(decode_wav(&wav(&[(b"fmt ", fmt(1, 1, 1, 16))])).err(), Some(WavError::MissingData));
    assert_eq!(decode_wav(&wav(&[(b"fmt ", fmt(1, 0, 1, 16)), (b"data", vec![])])).err(), Some(WavError::ZeroChannels));
    assert_eq!(decode_wav(&wav(&[(b"fmt ", fmt(1, 1, 1, 4)), (b"data", vec![])])).err(), Some(WavError::NotByteAligned));
    assert_eq!(decode_wav(&wav(&[(b"fmt ", fmt(1, 1, 1, 16)), (b"data", vec![1, 2, 3])])).err(), Some(WavError::NotSampleAligned));
    assert_eq!(decode_wav(&wav(&[(b"fmt ", fmt(2, 1, 1, 16)), (b"data", vec![1, 2])])).err(), Some(WavError::Unsupported { audio_format: 2, bits_per_sample: 16 }));
    assert_eq!(decode_wav(&wav(&[(b"fmt ", vec![0; 8])])).err(), Some(WavError::FmtTooSmall));
    let mut truncated = wav(&[(b"data", vec![0; 4])]);
    truncated.truncate(truncated.len() - 1);
    assert_eq!(decode_wav(&truncated).err(), Some(WavError::ChunkPastEnd));
    assert_eq!(
        WavError::Unsupported { audio_format: 2, bits_per_sample: 16 }.message(),
        "unsupported WAV format: format 2, 16 bits"
    );
    assert_eq!(WavError::NotRiffWave.message(), "not a RIFF/WAVE file");
}

#[test]
fn unsupported_coding_without_samples_is_empty() {
    let clip = decode_wav(&wav(&[(b"fmt ", fmt(2, 1, 1, 16)), (b"data", vec![])])).expect("decodes");
    assert_eq!(clip.coding, None);
    assert!(clip.samples.is_empty());
}

#[test]
fn ring_drops_the_oldest_sample_when_full() {
    let mut ring = SampleRing::new(0.0f32, 3);
    for s in [1.0, 2.0, 3.0, 4.0] {
        ring.push(s);
    }
    assert_eq!(ring.len(), 3);
    assert_eq!(ring.pop(), Some(2.0));
    assert_eq!(ring.pop(), Some(3.0));
    assert_eq!(ring.pop(), Some(4.0));
    assert_eq!(ring.pop(), None);
}

#[test]
fn ring_takes_only_with_enough_delay() {
    let mut ring = SampleRing::new(0u8, 8);
    for s in 1..=5u8 {
        ring.push(s);
    }
    let mut out = vec![9];
    assert!(!ring.take_delayed_into(4, 2, &mut out));
    assert_eq!(out, vec![9]);
    assert!(ring.take_delayed_into(2, 3, &mut out));
    assert_eq!(out, vec![1, 2]);
    assert_eq!(ring.len(), 3);
    ring.clear();
    assert_eq!(ring.len(), 0);
}

#[test]
fn ring_without_slots_stays_empty() {
    let mut ring = SampleRing::new(0i16, 0);
    ring.push(5);
    assert_eq!(ring.len(), 0);
    assert_eq!(ring.pop(), None);
}
