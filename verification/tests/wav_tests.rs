use rodio::source::Source;
use rodio::wav::WavDecoder;

fn wav_bytes(channels: u16, rate: u32, bits: u16, format_tag: u16, data: &[u8]) -> Vec<u8> {
    let mut v: Vec<u8> = Vec::new();
    v.extend_from_slice(b"RIFF");
    let data_len = data.len() as u32;
    let riff_size = 4 + 24 + 8 + data_len;
    v.extend_from_slice(&riff_size.to_le_bytes());
    v.extend_from_slice(b"WAVE");
    v.extend_from_slice(b"fmt ");
    v.extend_from_slice(&16u32.to_le_bytes());
    v.extend_from_slice(&format_tag.to_le_bytes());
    v.extend_from_slice(&channels.to_le_bytes());
    v.extend_from_slice(&rate.to_le_bytes());
    let bytes_per = ((bits as u32) + 7) / 8;
    let byte_rate = rate * bytes_per * channels as u32;
    v.extend_from_slice(&byte_rate.to_le_bytes());
    let block_align = (bytes_per as u16) * channels;
    v.extend_from_slice(&block_align.to_le_bytes());
    v.extend_from_slice(&bits.to_le_bytes());
    v.extend_from_slice(b"data");
    v.extend_from_slice(&data_len.to_le_bytes());
    v.extend_from_slice(data);
    v
}

fn pcm16(samples: &[i16]) -> Vec<u8> {
    let mut d: Vec<u8> = Vec::new();
    for s in samples {
        d.extend_from_slice(&s.to_le_bytes());
    }
    d
}

#[test]
fn duration_matches_declared_frames() {
    // 44100 Hz, 2 channels, 16-bit, 44100 frames: exactly one second.
    let data = vec![0u8; 44100 * 2 * 2];
    let bytes = wav_bytes(2, 44100, 16, 1, &data);
    let dec = WavDecoder::new(bytes).expect("valid wav");
    assert_eq!(dec.total_duration(), Some(1_000_000));
    assert_eq!(dec.channels(), 2);
    assert_eq!(dec.sample_rate(), 44100);
    assert_eq!(dec.current_span_len(), None);
}

#[test]
fn exhausts_after_declared_samples() {
    // 44100 frames of 2 channels: 88_200 samples, the 88_201st pull is None.
    let data = vec![0u8; 44100 * 2 * 2];
    let bytes = wav_bytes(2, 44100, 16, 1, &data);
    let mut dec = WavDecoder::new(bytes).expect("valid wav");
    for _ in 0..88_200u32 {
        assert!(dec.next().is_some());
    }
    assert_eq!(dec.next(), None);
    assert_eq!(dec.next(), None);
}

#[test]
fn probe_mismatch_returns_input_unchanged() {
    let junk: Vec<u8> = (0u8..200).collect();
    match WavDecoder::new(junk.clone()) {
        Ok(_) => panic!("junk must not parse as wav"),
        Err(back) => assert_eq!(back, junk),
    }
}

#[test]
fn truncated_header_is_rejected() {
    let bytes = wav_bytes(2, 44100, 16, 1, &[0u8; 8]);
    let cut = bytes[..16].to_vec();
    assert!(WavDecoder::new(cut.clone()).is_err());
}

#[test]
fn pcm16_samples_widen_to_full_range() {
    let bytes = wav_bytes(1, 8000, 16, 1, &pcm16(&[0, 1, -1, i16::MAX, i16::MIN]));
    let mut dec = WavDecoder::new(bytes).unwrap();
    assert_eq!(dec.next(), Some(0));
    assert_eq!(dec.next(), Some(1 << 16));
    assert_eq!(dec.next(), Some(-(1 << 16)));
    assert_eq!(dec.next(), Some((i16::MAX as i32) << 16));
    assert_eq!(dec.next(), Some((i16::MIN as i32) << 16));
    assert_eq!(dec.next(), None);
}

#[test]
fn pcm8_is_unsigned_with_midpoint_silence() {
    let bytes = wav_bytes(1, 8000, 8, 1, &[128u8, 255, 0]);
    let mut dec = WavDecoder::new(bytes).unwrap();
    assert_eq!(dec.next(), Some(0));
    assert_eq!(dec.next(), Some(127 << 24));
    assert_eq!(dec.next(), Some(-128 << 24));
}

#[test]
fn pcm24_sign_extends() {
    // -1 in 24-bit two's complement, then +1.
    let bytes = wav_bytes(1, 8000, 24, 1, &[0xFF, 0xFF, 0xFF, 0x01, 0x00, 0x00]);
    let mut dec = WavDecoder::new(bytes).unwrap();
    assert_eq!(dec.next(), Some(-(1 << 8)));
    assert_eq!(dec.next(), Some(1 << 8));
}

#[test]
fn float32_samples_convert_to_fixed_point() {
    let mut d: Vec<u8> = Vec::new();
    for v in [0.5f32, -0.5, 0.0, 1.0, -1.0, 2.0, f32::NAN] {
        d.extend_from_slice(&v.to_bits().to_le_bytes());
    }
    let bytes = wav_bytes(1, 8000, 32, 3, &d);
    let mut dec = WavDecoder::new(bytes).unwrap();
    assert_eq!(dec.next(), Some(1 << 30));
    assert_eq!(dec.next(), Some(-(1 << 30)));
    assert_eq!(dec.next(), Some(0));
    assert_eq!(dec.next(), Some(0x7fff_ffff));
    assert_eq!(dec.next(), Some(-0x7fff_ffff));
    assert_eq!(dec.next(), Some(0x7fff_ffff));
    assert_eq!(dec.next(), Some(0));
}

#[test]
fn float64_data_degrades_to_silence() {
    // A 64-bit float width is beyond this decoder: equilibrium, not failure.
    let bytes = wav_bytes(1, 8000, 64, 3, &[0xABu8; 16]);
    let mut dec = WavDecoder::new(bytes).unwrap();
    assert_eq!(dec.next(), Some(0));
    assert_eq!(dec.next(), Some(0));
    assert_eq!(dec.next(), None);
}

#[test]
fn seek_then_zero_matches_fresh_decoder() {
    let samples: Vec<i16> = (0..8000i32).map(|i| (i % 3000) as i16).collect();
    let bytes = wav_bytes(2, 2000, 16, 1, &pcm16(&samples));
    let mut fresh = WavDecoder::new(bytes.clone()).unwrap();
    let first = fresh.next();

    let mut seeked = WavDecoder::new(bytes).unwrap();
    seeked.try_seek(500_000).unwrap();
    seeked.try_seek(0).unwrap();
    assert_eq!(seeked.next(), first);
}

#[test]
fn seek_lands_on_frame_boundary() {
    // Sample i carries the value i, 2 channels at 1000 Hz: seeking to
    // 250 ms must land on frame 250, sample 500.
    let samples: Vec<i16> = (0..2000i32).map(|i| i as i16).collect();
    let bytes = wav_bytes(2, 1000, 16, 1, &pcm16(&samples));
    let mut dec = WavDecoder::new(bytes).unwrap();
    dec.try_seek(250_000).unwrap();
    assert_eq!(dec.next(), Some(500 << 16));
    assert_eq!(dec.next(), Some(501 << 16));
}

#[test]
fn seek_past_end_clamps_and_exhausts() {
    let data = vec![0u8; 100 * 2 * 2];
    let bytes = wav_bytes(2, 1000, 16, 1, &data);
    let mut dec = WavDecoder::new(bytes).unwrap();
    assert!(dec.try_seek(u64::MAX).is_ok());
    assert_eq!(dec.next(), None);
}

#[test]
fn into_inner_returns_the_resource() {
    let data = vec![0u8; 8];
    let bytes = wav_bytes(1, 8000, 16, 1, &data);
    let dec = WavDecoder::new(bytes.clone()).unwrap();
    assert_eq!(dec.into_inner(), bytes);
}

#[test]
fn extra_chunks_before_data_are_skipped() {
    // A LIST chunk between fmt and data must be walked over.
    let inner = wav_bytes(1, 8000, 16, 1, &pcm16(&[7]));
    let mut v: Vec<u8> = Vec::new();
    v.extend_from_slice(&inner[..36]);
    v.extend_from_slice(b"LIST");
    v.extend_from_slice(&4u32.to_le_bytes());
    v.extend_from_slice(b"info");
    v.extend_from_slice(&inner[36..]);
    let riff_size = (v.len() - 8) as u32;
    v[4..8].copy_from_slice(&riff_size.to_le_bytes());
    let mut dec = WavDecoder::new(v).unwrap();
    assert_eq!(dec.sample_rate(), 8000);
    assert_eq!(dec.next(), Some(7 << 16));
}

#[test]
fn odd_sized_chunks_are_word_aligned() {
    // RIFF pads odd chunk sizes to word boundaries: a 3-byte junk chunk
    // occupies 4 payload bytes.
    let inner = wav_bytes(1, 8000, 16, 1, &pcm16(&[9]));
    let mut v: Vec<u8> = Vec::new();
    v.extend_from_slice(&inner[..12]);
    v.extend_from_slice(b"junk");
    v.extend_from_slice(&3u32.to_le_bytes());
    v.extend_from_slice(&[1, 2, 3, 0]);
    v.extend_from_slice(&inner[12..]);
    let riff_size = (v.len() - 8) as u32;
    v[4..8].copy_from_slice(&riff_size.to_le_bytes());
    let mut dec = WavDecoder::new(v).unwrap();
    assert_eq!(dec.next(), Some(9 << 16));
}

#[test]
fn data_before_fmt_is_rejected() {
    let mut v: Vec<u8> = Vec::new();
    v.extend_from_slice(b"RIFF");
    v.extend_from_slice(&20u32.to_le_bytes());
    v.extend_from_slice(b"WAVE");
    v.extend_from_slice(b"data");
    v.extend_from_slice(&4u32.to_le_bytes());
    v.extend_from_slice(&[0, 0, 0, 0]);
    assert!(WavDecoder::new(v).is_err());
}

#[test]
fn zero_channel_header_is_rejected() {
    let bytes = wav_bytes(0, 8000, 16, 1, &[0u8; 4]);
    assert!(WavDecoder::new(bytes).is_err());
}
