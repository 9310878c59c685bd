//! The WAV codec: hound parses and writes the container; these wrappers
//! hand the library plain values. What hound returns depends on the bytes
//! (or on the header and samples) alone, so each result gets a name.
//!
//! Integer samples are decoded by hound. A 32-bit float sample is needed
//! here only as its bit pattern, so it is taken from the data chunk, whose
//! start hound reports, as a four-byte little-endian word; it is written
//! back the same way, as the 32-bit integer with those bits.

use vstd::prelude::*;
use crate::encoding::{AudioSpec, SampleFormat};

verus! {

/// The header hound reads from a WAV image: channels, sample rate, bits per
/// sample, and whether samples are floats; `None` where hound refuses it.
pub uninterp spec fn wav_header(b: Seq<u8>) -> Option<(u16, u32, u16, bool)>;

/// The integer samples hound decodes from a WAV image, interleaved, each
/// as its sign-extended value; a sample that fails to decode is `None`.
pub uninterp spec fn wav_int_samples(b: Seq<u8>) -> Seq<Option<i32>>;

/// Where hound finds the data chunk of a WAV image: the offset of its first
/// byte, and the number of samples the header declares.
pub uninterp spec fn wav_data_layout(b: Seq<u8>) -> Option<(u64, u32)>;

/// The WAV image hound writes for a header and a sample stream; `None`
/// where hound refuses the header or a sample.
pub uninterp spec fn wav_encoded(
    channels: u16,
    sample_rate: u32,
    bits_per_sample: u16,
    float: bool,
    words: Seq<i32>,
) -> Option<Seq<u8>>;

/// Relies on `hound::WavReader::new` and `WavReader::spec`: parses the
/// header of an in-memory WAV image.
#[verifier::external_body]
fn read_header(bytes: &Vec<u8>) -> (r: Option<(u16, u32, u16, bool)>)
    ensures
        r == wav_header(bytes@),
{
    let reader = hound::WavReader::new(std::io::Cursor::new(bytes.as_slice())).ok()?;
    let s = reader.spec();
    let float = match s.sample_format {
        hound::SampleFormat::Float => true,
        hound::SampleFormat::Int => false,
    };
    Some((s.channels, s.sample_rate, s.bits_per_sample, float))
}

/// Relies on `hound::WavReader::new` and `WavReader::samples::<i32>`:
/// decodes the samples of an integer WAV image. It succeeds exactly where
/// the header parses.
#[verifier::external_body]
fn read_int_words(bytes: &Vec<u8>) -> (r: Option<Vec<Option<i32>>>)
    ensures
        r is Some <==> wav_header(bytes@) is Some,
        r matches Some(w) ==> w@ == wav_int_samples(bytes@),
{
    let mut reader = hound::WavReader::new(std::io::Cursor::new(bytes.as_slice())).ok()?;
    Some(reader.samples::<i32>().map(|s| s.ok()).collect())
}

/// Relies on `hound::WavReader::new`, `WavReader::len` and
/// `WavReader::into_inner`: after reading the header, the reader stands at
/// the first byte of the data chunk. It succeeds exactly where the header
/// parses.
#[verifier::external_body]
fn read_data_layout(bytes: &Vec<u8>) -> (r: Option<(u64, u32)>)
    ensures
        r is Some <==> wav_header(bytes@) is Some,
        r == wav_data_layout(bytes@),
{
    let reader = hound::WavReader::new(std::io::Cursor::new(bytes.as_slice())).ok()?;
    let count = reader.len();
    Some((reader.into_inner().position(), count))
}

/// Relies on `hound::WavWriter` (`new`, `write_sample`, `finalize`): writes
/// a WAV image in memory. Every word is written as an `i32`: hound writes
/// it in the header's bit depth without looking at the sample format, so a
/// 32-bit float word goes out as the four little-endian bytes of its bits.
/// `encodable` leaves out the headers on which hound's writer panics or
/// overflows: zero channels or sample rate (it divides by both), a float
/// depth other than 32, a byte rate or data length beyond `u32`.
#[verifier::external_body]
fn encode(spec: &AudioSpec, words: &Vec<i32>) -> (r: Option<Vec<u8>>)
    requires
        encodable(*spec, words@.len() as int),
    ensures
        r matches Some(v) ==> wav_encoded(
            spec.channels, spec.sample_rate, spec.bits_per_sample,
            spec.sample_format == SampleFormat::Float, words@,
        ) == Some(v@),
        r is None ==> wav_encoded(
            spec.channels, spec.sample_rate, spec.bits_per_sample,
            spec.sample_format == SampleFormat::Float, words@,
        ) is None,
{
    let sample_format = match spec.sample_format {
        SampleFormat::Float => hound::SampleFormat::Float,
        SampleFormat::Integer => hound::SampleFormat::Int,
    };
    let hs = hound::WavSpec { channels: spec.channels, sample_rate: spec.sample_rate,
        bits_per_sample: spec.bits_per_sample, sample_format };
    let mut cursor = std::io::Cursor::new(Vec::new());
    let mut writer = hound::WavWriter::new(&mut cursor, hs).ok()?;
    for w in words.iter() {
        writer.write_sample(*w).ok()?;
    }
    writer.finalize().ok()?;
    Some(cursor.into_inner())
}

/// The bytes per sample that hound writes for a bit depth of 8, 16, 24 or 32.
pub open spec fn sample_bytes(bits_per_sample: u16) -> int {
    bits_per_sample as int / 8
}

/// A header and sample count that hound's writer takes without panicking:
/// at least one channel, a positive rate, a depth of 8, 16, 24 or 32 bits
/// (32 for floats), a byte rate within `u32`, and a data chunk whose length,
/// with the 60 header bytes that follow the file-size field, fits in `u32`.
pub open spec fn encodable(spec: AudioSpec, n: int) -> bool {
    &&& spec.channels >= 1
    &&& spec.sample_rate > 0
    &&& (spec.bits_per_sample == 8 || spec.bits_per_sample == 16 || spec.bits_per_sample == 24
        || spec.bits_per_sample == 32)
    &&& (spec.sample_format == SampleFormat::Float ==> spec.bits_per_sample == 32)
    &&& spec.sample_rate * sample_bytes(spec.bits_per_sample) * spec.channels <= u32::MAX
    &&& n * sample_bytes(spec.bits_per_sample) + 60 <= u32::MAX
}

/// Decides `encodable`.
pub fn is_encodable(spec: &AudioSpec, n: usize) -> (r: bool)
    ensures
        r == encodable(*spec, n as int),
{
    let bits = spec.bits_per_sample;
    if spec.channels == 0 || spec.sample_rate == 0 {
        return false;
    }
    if !(bits == 8 || bits == 16 || bits == 24 || bits == 32) {
        return false;
    }
    if spec.sample_format == SampleFormat::Float && bits != 32 {
        return false;
    }
    let bytes: u128 = (bits / 8) as u128;
    proof {
        assert(spec.sample_rate * bytes <= 0x100000000 * 4) by (nonlinear_arith)
            requires spec.sample_rate < 0x100000000, bytes <= 4;
        assert(spec.sample_rate * bytes * spec.channels <= 0x100000000 * 4 * 0x10000)
            by (nonlinear_arith)
            requires spec.sample_rate * bytes <= 0x100000000 * 4, spec.channels < 0x10000;
        assert(n * bytes <= 0x10000000000000000 * 4) by (nonlinear_arith)
            requires n < 0x10000000000000000, bytes <= 4;
    }
    (spec.sample_rate as u128) * bytes * (spec.channels as u128) <= 0xffff_ffff
        && (n as u128) * bytes + 60 <= 0xffff_ffff
}

/// The little-endian 32-bit unsigned value at byte `p`.
pub open spec fn le_u32(b: Seq<u8>, p: int) -> int {
    b[p] + 256 * b[p + 1] + 65536 * b[p + 2] + 16777216 * b[p + 3]
}

/// The little-endian 32-bit word at byte `p`.
pub open spec fn le_word(b: Seq<u8>, p: int) -> i32 {
    le_u32(b, p) as u32 as i32
}

/// The data chunk at `start` holds `count` samples of exactly four bytes:
/// its length field, the four bytes before `start`, is `4 * count`.
pub open spec fn four_byte_samples(b: Seq<u8>, start: int, count: int) -> bool {
    4 <= start <= b.len() && le_u32(b, start - 4) == 4 * count
}

/// The `count` float words of a data chunk that starts at `start`, four
/// little-endian bytes each; a word cut off by the end of the image is
/// `None`, and so is every word of a chunk whose samples are not four
/// bytes wide (hound decodes no float sample there).
pub open spec fn float_words(b: Seq<u8>, start: int, count: int) -> Seq<Option<i32>> {
    Seq::new(count as nat, |i: int|
        if four_byte_samples(b, start, count) && start + 4 * i + 4 <= b.len() {
            Some(le_word(b, start + 4 * i))
        } else {
            None
        })
}

/// The interleaved sample words of a WAV image: integer samples as hound
/// decodes them, float samples as their IEEE 754 bits.
pub open spec fn wav_samples(b: Seq<u8>) -> Seq<Option<i32>> {
    match wav_header(b) {
        Some(h) if h.3 => match wav_data_layout(b) {
            Some(l) => float_words(b, l.0 as int, l.1 as int),
            None => Seq::empty(),
        },
        _ => wav_int_samples(b),
    }
}

/// The header of a WAV image as the library's `AudioSpec`.
pub open spec fn header_spec(h: (u16, u32, u16, bool)) -> AudioSpec {
    AudioSpec {
        channels: h.0,
        sample_rate: h.1,
        bits_per_sample: h.2,
        sample_format: if h.3 { SampleFormat::Float } else { SampleFormat::Integer },
    }
}

/// Reads the header of a WAV image; `None` where it cannot be parsed.
pub fn decode_header(bytes: &Vec<u8>) -> (r: Option<AudioSpec>)
    ensures
        match wav_header(bytes@) {
            None => r is None,
            Some(h) => r == Some(header_spec(h)),
        },
{
    match read_header(bytes) {
        None => None,
        Some(h) => Some(AudioSpec {
            channels: h.0,
            sample_rate: h.1,
            bits_per_sample: h.2,
            sample_format: if h.3 { SampleFormat::Float } else { SampleFormat::Integer },
        }),
    }
}

fn read_le_u32(bytes: &Vec<u8>, p: usize) -> (r: u32)
    requires
        p + 4 <= bytes.len(),
    ensures
        r == le_u32(bytes@, p as int),
{
    bytes[p] as u32 + 256 * (bytes[p + 1] as u32) + 65536 * (bytes[p + 2] as u32)
        + 16777216 * (bytes[p + 3] as u32)
}

/// Decodes the float words of a data chunk (see `float_words`).
fn decode_float_words(bytes: &Vec<u8>, start: u64, count: u32) -> (r: Vec<Option<i32>>)
    ensures
        r@ == float_words(bytes@, start as int, count as int),
{
    let mut out: Vec<Option<i32>> = Vec::new();
    let len: u64 = bytes.len() as u64;
    let whole: bool = 4 <= start && start <= len
        && read_le_u32(bytes, (start - 4) as usize) as u64 == 4 * (count as u64);
    let mut i: u32 = 0;
    while i < count
        invariant
            i <= count,
            len == bytes.len(),
            whole == four_byte_samples(bytes@, start as int, count as int),
            out@ == float_words(bytes@, start as int, count as int).take(i as int),
        decreases count - i,
    {
        let w: Option<i32> = if whole && 4 * (i as u64) + 4 <= len - start {
            let p: u64 = start + 4 * (i as u64);
            assert(p + 4 <= bytes.len());
            let v: u32 = read_le_u32(bytes, p as usize);
            let word: i32 = #[verifier::truncate] (v as i32);
            Some(word)
        } else {
            None
        };
        out.push(w);
        assert(out@ =~= float_words(bytes@, start as int, count as int).take(i + 1));
        i = i + 1;
    }
    assert(out@ =~= float_words(bytes@, start as int, count as int));
    out
}

/// Decodes all sample words of a WAV image (see `wav_samples`); `None`
/// exactly where the header cannot be parsed.
pub fn decode_words(bytes: &Vec<u8>) -> (r: Option<Vec<Option<i32>>>)
    ensures
        r is Some <==> wav_header(bytes@) is Some,
        r matches Some(w) ==> w@ == wav_samples(bytes@),
{
    match read_header(bytes) {
        None => None,
        Some(h) => if h.3 {
            match read_data_layout(bytes) {
                None => None,
                Some(l) => Some(decode_float_words(bytes, l.0, l.1)),
            }
        } else {
            read_int_words(bytes)
        },
    }
}

/// Encodes a word stream as a WAV image with the given header (see
/// `wav_encoded`); `None` where the header and length are not `encodable`.
pub fn encode_words(spec: &AudioSpec, words: &Vec<i32>) -> (r: Option<Vec<u8>>)
    ensures
        !encodable(*spec, words@.len() as int) ==> r is None,
        encodable(*spec, words@.len() as int) ==> match wav_encoded(
            spec.channels, spec.sample_rate, spec.bits_per_sample,
            spec.sample_format == SampleFormat::Float, words@,
        ) {
            None => r is None,
            Some(o) => r matches Some(v) && v@ == o,
        },
{
    if !is_encodable(spec, words.len()) {
        return None;
    }
    encode(spec, words)
}

} // verus!
