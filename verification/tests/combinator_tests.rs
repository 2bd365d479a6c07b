use std::cell::Cell;
use std::rc::Rc;

use rodio::agc::{apply_gain, Agc, UNITY_GAIN_Q16};
use rodio::empty_callback::EmptyCallback;
use rodio::periodic::PeriodicAccess;
use rodio::segmented::{SegmentedSource, SEGMENT_SAMPLE};
use rodio::source::{SeekError, Source};
use rodio::wav::WavDecoder;

fn wav_bytes(channels: u16, rate: u32, bits: u16, format_tag: u16, data: &[u8]) -> Vec<u8> {
    let mut v: Vec<u8> = Vec::new();
    v.extend_from_slice(b"RIFF");
    let data_len = data.len() as u32;
    let riff_size = 4 + 24 + 8 + data_len;
    v.extend_from_slice(&riff_size.to_le_bytes());
    v.extend_from_slice(b"WAVE");
    v.extend_from_slice(b"fmt ");
    v.extend_from_slice(&16u32.to_le_bytes());
    v.extend_from_slice(&format_tag.to_le_bytes());
    v.extend_from_slice(&channels.to_le_bytes());
    v.extend_from_slice(&rate.to_le_bytes());
    let bytes_per = ((bits as u32) + 7) / 8;
    let byte_rate = rate * bytes_per * channels as u32;
    v.extend_from_slice(&byte_rate.to_le_bytes());
    let block_align = (bytes_per as u16) * channels;
    v.extend_from_slice(&block_align.to_le_bytes());
    v.extend_from_slice(&bits.to_le_bytes());
    v.extend_from_slice(b"data");
    v.extend_from_slice(&data_len.to_le_bytes());
    v.extend_from_slice(data);
    v
}

fn pcm16(samples: &[i16]) -> Vec<u8> {
    let mut d: Vec<u8> = Vec::new();
    for s in samples {
        d.extend_from_slice(&s.to_le_bytes());
    }
    d
}

#[test]
fn empty_callback_fires_exactly_once() {
    let count = Rc::new(Cell::new(0u32));
    let c = count.clone();
    let mut src = EmptyCallback::new(move || c.set(c.get() + 1));
    assert_eq!(count.get(), 0);
    for _ in 0..5 {
        assert_eq!(src.next(), None);
    }
    assert_eq!(count.get(), 1);
}

#[test]
fn empty_callback_metadata() {
    let mut src = EmptyCallback::new(|| ());
    assert_eq!(src.channels(), 1);
    assert_eq!(src.sample_rate(), 44100);
    assert_eq!(src.total_duration(), Some(0));
    assert_eq!(src.current_span_len(), None);
    assert!(matches!(
        src.try_seek(0),
        Err(SeekError::NotSupported { .. })
    ));
}

#[test]
fn agc_gain_and_output_stay_bounded_over_sweep() {
    // Input sweeps from silence to full scale.
    let samples: Vec<i16> = (0..4096i32).map(|i| (i * 8).min(32767) as i16).collect();
    let bytes = wav_bytes(1, 44100, 16, 1, &pcm16(&samples));
    let dec = WavDecoder::new(bytes).unwrap();
    let max_gain = 4 * UNITY_GAIN_Q16;
    let ceiling = 1 << 28;
    let mut agc = Agc::new(dec, 1 << 24, max_gain, 256, 256, ceiling);
    loop {
        match agc.next() {
            None => break,
            Some(s) => {
                assert!(s.abs() <= ceiling);
                assert!(agc.current_gain_q16() <= max_gain);
            }
        }
    }
}

#[test]
fn agc_disabled_passes_samples_through() {
    let samples: Vec<i16> = vec![100, -200, 30000, -30000];
    let bytes = wav_bytes(1, 44100, 16, 1, &pcm16(&samples));
    let dec = WavDecoder::new(bytes).unwrap();
    let mut agc = Agc::new(dec, 1, UNITY_GAIN_Q16, 1000, 1000, 1);
    agc.set_enabled(false);
    assert!(!agc.is_enabled());
    for s in samples {
        assert_eq!(agc.next(), Some((s as i32) << 16));
    }
}

#[test]
fn agc_gain_rises_toward_quiet_target() {
    let samples: Vec<i16> = vec![1000; 64];
    let bytes = wav_bytes(1, 44100, 16, 1, &pcm16(&samples));
    let dec = WavDecoder::new(bytes).unwrap();
    let mut agc = Agc::new(dec, i32::MAX, 2 * UNITY_GAIN_Q16, 1024, 1024, i32::MAX);
    let before = agc.current_gain_q16();
    agc.next().unwrap();
    assert!(agc.current_gain_q16() > before);
}

#[test]
fn periodic_flag_flip_observed_within_cadence() {
    // 8000 Hz, 1 channel: a 5 ms cadence is 40 samples. The flag flips
    // before the first pull; by the pull after one cadence the AGC's
    // enabled state must reflect it.
    let data = vec![0u8; 2 * 8000];
    let bytes = wav_bytes(1, 8000, 16, 1, &data);
    let dec = WavDecoder::new(bytes).unwrap();
    let agc = Agc::new(dec, 1 << 24, 4 * UNITY_GAIN_Q16, 256, 256, 1 << 28);

    let flag = Rc::new(Cell::new(true));
    let f = flag.clone();
    let mut controlled = PeriodicAccess::new(agc, 5_000, move |mut a: Agc<WavDecoder>| {
        a.set_enabled(f.get());
        a
    });

    flag.set(false);
    for _ in 0..41 {
        controlled.next().unwrap();
    }
    assert!(!controlled.inner_ref().is_enabled());

    flag.set(true);
    for _ in 0..41 {
        controlled.next().unwrap();
    }
    assert!(controlled.inner_ref().is_enabled());
}

#[test]
fn periodic_callback_fires_once_per_cadence() {
    let fires = Rc::new(Cell::new(0u32));
    let seg = SegmentedSource::new(vec![200], 0);
    let f = fires.clone();
    // 44100 Hz, 1 channel; 10 samples worth of cadence.
    let micros = 10_000_000 / 44100 * 10 + 3;
    let mut p = PeriodicAccess::new(seg, micros as u64 / 10, move |s| {
        f.set(f.get() + 1);
        s
    });
    let mut produced = 0u32;
    while p.next().is_some() {
        produced += 1;
    }
    assert_eq!(produced, 200);
    assert!(fires.get() >= 1);
}

#[test]
fn segmented_source_reports_span_lengths() {
    let mut seg = SegmentedSource::new(vec![3], 2);
    assert_eq!(seg.current_span_len(), Some(3));
    assert_eq!(seg.next(), Some(SEGMENT_SAMPLE));
    assert_eq!(seg.current_span_len(), Some(2));
    seg.next().unwrap();
    seg.next().unwrap();
    assert_eq!(seg.current_span_len(), None);
    assert_eq!(seg.next(), Some(SEGMENT_SAMPLE));
    seg.next().unwrap();
    assert_eq!(seg.next(), None);
    assert_eq!(seg.next(), None);
}

#[test]
fn apply_gain_scales_limits_and_keeps_sign() {
    assert_eq!(apply_gain(1000, 2 * UNITY_GAIN_Q16, i32::MAX), 2000);
    assert_eq!(apply_gain(-1000, UNITY_GAIN_Q16 / 2, i32::MAX), -500);
    assert_eq!(apply_gain(1 << 20, 4 * UNITY_GAIN_Q16, 1 << 21), 1 << 21);
    assert_eq!(apply_gain(-(1 << 20), 4 * UNITY_GAIN_Q16, 1 << 21), -(1 << 21));
    assert_eq!(apply_gain(0, 4 * UNITY_GAIN_Q16, 1), 0);
}
