use std::io::Cursor;

use wav2mono::classifier::StereoType;
use wav2mono::encoding::{AudioSpec, SampleFormat};
use wav2mono::pipeline::{classify_stereo, process_wav_bytes, reduce_to_mono, Disposition, ProcessError};

fn int_wav(channels: u16, rate: u32, bits: u16, samples: &[i32]) -> Vec<u8> {
    let spec = hound::WavSpec { channels, sample_rate: rate, bits_per_sample: bits, sample_format: hound::SampleFormat::Int };
    let mut cursor = Cursor::new(Vec::new());
    {
        let mut w = hound::WavWriter::new(&mut cursor, spec).unwrap();
        for s in samples {
            w.write_sample(*s).unwrap();
        }
        w.finalize().unwrap();
    }
    cursor.into_inner()
}

fn float_wav(channels: u16, rate: u32, samples: &[f32]) -> Vec<u8> {
    let spec = hound::WavSpec { channels, sample_rate: rate, bits_per_sample: 32, sample_format: hound::SampleFormat::Float };
    let mut cursor = Cursor::new(Vec::new());
    {
        let mut w = hound::WavWriter::new(&mut cursor, spec).unwrap();
        for s in samples {
            w.write_sample(*s).unwrap();
        }
        w.finalize().unwrap();
    }
    cursor.into_inner()
}

fn read_int(bytes: &[u8]) -> (hound::WavSpec, Vec<i32>) {
    let mut r = hound::WavReader::new(Cursor::new(bytes)).unwrap();
    let spec = r.spec();
    (spec, r.samples::<i32>().map(|s| s.unwrap()).collect())
}

fn read_float(bytes: &[u8]) -> (hound::WavSpec, Vec<f32>) {
    let mut r = hound::WavReader::new(Cursor::new(bytes)).unwrap();
    let spec = r.spec();
    (spec, r.samples::<f32>().map(|s| s.unwrap()).collect())
}

/// A sine at -20 dBFS (amplitude 0.1), 440 Hz.
fn sine16(frames: usize, rate: u32) -> Vec<i32> {
    (0..frames)
        .map(|i| {
            let t = i as f64 / rate as f64;
            (0.1 * 32767.0 * (2.0 * std::f64::consts::PI * 440.0 * t).sin()).round() as i32
        })
        .collect()
}

fn interleave(l: &[i32], r: &[i32]) -> Vec<i32> {
    l.iter().zip(r.iter()).flat_map(|(a, b)| [*a, *b]).collect()
}

#[test]
fn identical_sine_16bit_is_reduced_to_left_channel() {
    let left = sine16(96_000, 48_000);
    let input = int_wav(2, 48_000, 16, &interleave(&left, &left));
    let out = process_wav_bytes(&input).unwrap();
    assert_eq!(out.disposition, Disposition::DualMono);
    assert!(out.replaces_input());
    let (spec, samples) = read_int(&out.output);
    assert_eq!(spec.channels, 1);
    assert_eq!(spec.sample_rate, 48_000);
    assert_eq!(spec.bits_per_sample, 16);
    assert_eq!(spec.sample_format, hound::SampleFormat::Int);
    assert_eq!(samples, left);
}

#[test]
fn phase_inverted_sine_is_true_stereo_and_passed_through() {
    let left = sine16(96_000, 48_000);
    let right: Vec<i32> = left.iter().map(|x| -x).collect();
    let input = int_wav(2, 48_000, 16, &interleave(&left, &right));
    let out = process_wav_bytes(&input).unwrap();
    assert_eq!(out.disposition, Disposition::TrueStereo);
    assert!(!out.replaces_input());
    assert_eq!(out.output, input);
}

#[test]
fn float_leading_silence_then_identical_sine_is_dual_mono() {
    let rate = 48_000usize;
    let mut left: Vec<f32> = vec![0.0; rate];
    left.extend((0..rate).map(|i| 0.1 * (2.0 * std::f32::consts::PI * 440.0 * i as f32 / rate as f32).sin()));
    let inter: Vec<f32> = left.iter().flat_map(|x| [*x, *x]).collect();
    let input = float_wav(2, rate as u32, &inter);
    let out = process_wav_bytes(&input).unwrap();
    assert_eq!(out.disposition, Disposition::DualMono);
    let (spec, samples) = read_float(&out.output);
    assert_eq!(spec.channels, 1);
    assert_eq!(spec.bits_per_sample, 32);
    assert_eq!(spec.sample_format, hound::SampleFormat::Float);
    let bits: Vec<u32> = samples.iter().map(|x| x.to_bits()).collect();
    let expected: Vec<u32> = left.iter().map(|x| x.to_bits()).collect();
    assert_eq!(bits, expected);
}

#[test]
fn float_differing_channels_are_true_stereo() {
    let inter: Vec<f32> = (0..4800).flat_map(|i| {
        let x = 0.5 * (i as f32 * 0.05).sin();
        [x, 0.5 * x]
    }).collect();
    let input = float_wav(2, 48_000, &inter);
    let out = process_wav_bytes(&input).unwrap();
    assert_eq!(out.disposition, Disposition::TrueStereo);
    assert_eq!(out.output, input);
}

#[test]
fn eight_bit_float_stereo_is_unsupported() {
    let spec = AudioSpec { channels: 2, sample_rate: 48_000, bits_per_sample: 8, sample_format: SampleFormat::Float };
    let words = vec![Some(0), Some(0)];
    assert_eq!(
        classify_stereo(&spec, &words),
        Err(ProcessError::UnsupportedEncoding { sample_format: SampleFormat::Float, bits_per_sample: 8 })
    );
}

#[test]
fn eight_bit_integer_stereo_is_unsupported() {
    let input = int_wav(2, 8_000, 8, &[10, 10, -3, -3]);
    let r = process_wav_bytes(&input);
    assert_eq!(
        r.unwrap_err(),
        ProcessError::UnsupportedEncoding { sample_format: SampleFormat::Integer, bits_per_sample: 8 }
    );
}

#[test]
fn mono_input_is_passed_through() {
    let input = int_wav(1, 44_100, 16, &sine16(1000, 44_100));
    let out = process_wav_bytes(&input).unwrap();
    assert_eq!(out.disposition, Disposition::Mono);
    assert_eq!(out.output, input);
}

#[test]
fn multichannel_input_is_passed_through() {
    let input = int_wav(3, 44_100, 24, &[1, 2, 3, 4, 5, 6]);
    let out = process_wav_bytes(&input).unwrap();
    assert_eq!(out.disposition, Disposition::Multichannel);
    assert_eq!(out.output, input);
}

#[test]
fn reprocessing_reduced_output_leaves_it_unchanged() {
    let left = sine16(4800, 48_000);
    let input = int_wav(2, 48_000, 16, &interleave(&left, &left));
    let first = process_wav_bytes(&input).unwrap();
    assert_eq!(first.disposition, Disposition::DualMono);
    let second = process_wav_bytes(&first.output).unwrap();
    assert_eq!(second.disposition, Disposition::Mono);
    assert_eq!(second.output, first.output);
}

#[test]
fn repeated_runs_give_the_same_verdict() {
    let left = sine16(4800, 48_000);
    let right: Vec<i32> = left.iter().map(|x| x / 2).collect();
    let input = int_wav(2, 48_000, 16, &interleave(&left, &right));
    let a = process_wav_bytes(&input).unwrap();
    let b = process_wav_bytes(&input).unwrap();
    assert_eq!(a.disposition, Disposition::TrueStereo);
    assert_eq!(a.disposition, b.disposition);
    assert_eq!(a.output, b.output);
}

#[test]
fn identical_16bit_channels_keep_exact_values() {
    let left: Vec<i32> = vec![-32768, 32767, 0, 1, -1, 12345, -23456, 33, 7];
    let input = int_wav(2, 22_050, 16, &interleave(&left, &left));
    let out = process_wav_bytes(&input).unwrap();
    assert_eq!(out.disposition, Disposition::DualMono);
    assert_eq!(read_int(&out.output).1, left);
}

#[test]
fn identical_24bit_and_32bit_channels_keep_exact_values() {
    let l24: Vec<i32> = vec![-8_388_608, 8_388_607, 4_000_000, -5];
    let out = process_wav_bytes(&int_wav(2, 48_000, 24, &interleave(&l24, &l24))).unwrap();
    assert_eq!(out.disposition, Disposition::DualMono);
    let (spec, samples) = read_int(&out.output);
    assert_eq!(spec.bits_per_sample, 24);
    assert_eq!(samples, l24);
    let l32: Vec<i32> = vec![i32::MIN, i32::MAX, 1 << 30, -77];
    let out = process_wav_bytes(&int_wav(2, 48_000, 32, &interleave(&l32, &l32))).unwrap();
    assert_eq!(out.disposition, Disposition::DualMono);
    assert_eq!(read_int(&out.output).1, l32);
}

#[test]
fn silent_stereo_is_dual_mono_in_every_encoding() {
    for bits in [16u16, 24, 32] {
        let out = process_wav_bytes(&int_wav(2, 8_000, bits, &vec![0; 200])).unwrap();
        assert_eq!(out.disposition, Disposition::DualMono);
        assert_eq!(read_int(&out.output).1, vec![0; 100]);
    }
    let out = process_wav_bytes(&float_wav(2, 8_000, &vec![0.0; 200])).unwrap();
    assert_eq!(out.disposition, Disposition::DualMono);
    assert_eq!(read_float(&out.output).1, vec![0.0; 100]);
}

#[test]
fn empty_stereo_is_dual_mono() {
    let out = process_wav_bytes(&int_wav(2, 8_000, 16, &[])).unwrap();
    assert_eq!(out.disposition, Disposition::DualMono);
    let (spec, samples) = read_int(&out.output);
    assert_eq!(spec.channels, 1);
    assert!(samples.is_empty());
}

#[test]
fn garbage_bytes_are_unreadable() {
    let r = process_wav_bytes(&b"not a wave file at all".to_vec());
    assert_eq!(r.unwrap_err(), ProcessError::UnreadableContainer);
    assert_eq!(process_wav_bytes(&Vec::new()).unwrap_err(), ProcessError::UnreadableContainer);
}

#[test]
fn truncated_frame_start_sample_is_unreadable() {
    let left = vec![500, 500, 500];
    let mut input = int_wav(2, 8_000, 16, &interleave(&left, &left));
    input.truncate(input.len() - 4);
    assert_eq!(process_wav_bytes(&input).unwrap_err(), ProcessError::UnreadableContainer);
}

#[test]
fn too_wide_sample_is_a_write_failure() {
    let spec = AudioSpec { channels: 2, sample_rate: 8_000, bits_per_sample: 16, sample_format: SampleFormat::Integer };
    let words = vec![Some(70_000), Some(70_000)];
    assert_eq!(reduce_to_mono(&spec, &words).unwrap_err(), ProcessError::WriteFailure);
}

#[test]
fn reduce_to_mono_writes_first_channel() {
    let spec = AudioSpec { channels: 2, sample_rate: 8_000, bits_per_sample: 16, sample_format: SampleFormat::Integer };
    let words = vec![Some(1), Some(9), Some(-2), None, Some(3)];
    let bytes = reduce_to_mono(&spec, &words).unwrap();
    let (s, samples) = read_int(&bytes);
    assert_eq!(s.channels, 1);
    assert_eq!(samples, vec![1, -2, 3]);
    assert_eq!(reduce_to_mono(&spec, &vec![Some(1), Some(1), None, Some(1)]).unwrap_err(), ProcessError::UnreadableContainer);
}

#[test]
fn classify_stereo_by_encoding() {
    let spec = AudioSpec { channels: 2, sample_rate: 100, bits_per_sample: 24, sample_format: SampleFormat::Integer };
    let words = vec![Some(100_000), Some(100_000), Some(-9_000), Some(9_000)];
    assert_eq!(classify_stereo(&spec, &words), Ok(StereoType::TrueStereo));
    let same = vec![Some(100_000), Some(100_000), Some(-9_000), Some(-9_000)];
    assert_eq!(classify_stereo(&spec, &same), Ok(StereoType::DualMono));
}

#[test]
fn zero_sample_rate_stereo_is_unreadable() {
    let left = vec![500, 500, 500];
    let mut input = int_wav(2, 8_000, 16, &interleave(&left, &left));
    for b in &mut input[24..32] {
        *b = 0;
    }
    assert_eq!(process_wav_bytes(&input).unwrap_err(), ProcessError::UnreadableContainer);
}

#[test]
fn unencodable_mono_header_is_a_write_failure() {
    let spec = AudioSpec { channels: 2, sample_rate: u32::MAX, bits_per_sample: 32, sample_format: SampleFormat::Integer };
    let words = vec![Some(1), Some(1)];
    assert_eq!(reduce_to_mono(&spec, &words).unwrap_err(), ProcessError::WriteFailure);
    let spec = AudioSpec { channels: 2, sample_rate: 0, bits_per_sample: 16, sample_format: SampleFormat::Integer };
    assert_eq!(reduce_to_mono(&spec, &words).unwrap_err(), ProcessError::WriteFailure);
}
