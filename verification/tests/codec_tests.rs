use std::io::Cursor;

use dasp_sample::Sample;
use rodio::sample::{decode_sample, encode_int_sample, SampleFormat};
use rodio::source::Source;
use rodio::wav::WavDecoder;

#[test]
fn int_round_trip_stays_within_quantization_error() {
    // Decode-then-reencode at each integer width loses at most the
    // quantization step 2^(32-w), and never rounds upward.
    for w in [8u16, 16, 24, 32] {
        let step = 1i64 << (32 - w);
        for a in [
            0i32,
            1,
            -1,
            12345,
            -12345,
            0x1234_5678,
            -0x1234_5678,
            i32::MAX,
            i32::MIN,
        ] {
            let bytes = encode_int_sample(a, w);
            let back = decode_sample(&bytes, 0, SampleFormat::Int, w);
            let diff = a as i64 - back as i64;
            assert!(
                0 <= diff && diff < step,
                "width {w}: {a} -> {back} (diff {diff})"
            );
        }
    }
}

#[test]
fn int_codes_decode_then_encode_exactly() {
    // A stored code decodes to an amplitude that re-encodes to the same
    // bytes, at every width the data chunk stores exactly.
    for w in [8u16, 16, 24, 32] {
        for code in [
            vec![0x00u8],
            vec![0x7f],
            vec![0x80],
            vec![0xff],
            vec![0x34, 0x12],
            vec![0xcd, 0xab],
            vec![0x56, 0x34, 0x12],
            vec![0xaa, 0xbb, 0xcc],
            vec![0x78, 0x56, 0x34, 0x12],
            vec![0xef, 0xbe, 0xad, 0xde],
        ] {
            if code.len() != ((w as usize) + 7) / 8 {
                continue;
            }
            let amp = decode_sample(&code, 0, SampleFormat::Int, w);
            let again = encode_int_sample(amp, w);
            assert_eq!(again, code, "width {w}");
        }
    }
}

#[test]
fn float_round_trip_stays_within_quantization_error() {
    for v in [0.0f32, 0.5, -0.5, 0.25, 0.999, -0.999, 0.0003, -0.0003] {
        let bytes = v.to_bits().to_le_bytes().to_vec();
        let amp = decode_sample(&bytes, 0, SampleFormat::Float, 32);
        let back = amp as f64 / (1u64 << 31) as f64;
        assert!(
            (back - v as f64).abs() < 1.0 / (1u64 << 30) as f64,
            "{v} -> {amp} -> {back}"
        );
    }
}

#[test]
fn agrees_with_reference_wav_writer() {
    // A file written by the reference WAV encoder must decode to the same
    // samples, widened into the full 32-bit range.
    let spec = hound::WavSpec {
        channels: 2,
        sample_rate: 22_050,
        bits_per_sample: 16,
        sample_format: hound::SampleFormat::Int,
    };
    let written: Vec<i16> = (0..512i32).map(|i| (i * 63 - 9999) as i16).collect();
    let mut cursor = Cursor::new(Vec::new());
    {
        let mut writer = hound::WavWriter::new(&mut cursor, spec).unwrap();
        for s in &written {
            writer.write_sample(*s).unwrap();
        }
        writer.finalize().unwrap();
    }
    let bytes = cursor.into_inner();
    let mut dec = WavDecoder::new(bytes).unwrap();
    assert_eq!(dec.channels(), 2);
    assert_eq!(dec.sample_rate(), 22_050);
    for s in &written {
        assert_eq!(dec.next(), Some((*s as i32) << 16));
    }
    assert_eq!(dec.next(), None);
}

#[test]
fn widening_agrees_with_reference_conversion() {
    // The fixed-point widening must agree with the reference sample
    // conversion within one 16-bit quantization step.
    for v in [0i16, 1, -1, 1000, -1000, i16::MAX, i16::MIN] {
        let reference: f32 = v.to_sample();
        let bytes = encode_int_sample((v as i32) << 16, 16);
        let amp = decode_sample(&bytes, 0, SampleFormat::Int, 16);
        let ours = amp as f64 / (1u64 << 31) as f64;
        assert!(
            (ours - reference as f64).abs() <= 1.0 / 32768.0,
            "{v}: {ours} vs {reference}"
        );
    }
}
