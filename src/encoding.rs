//! Sample encodings and the sample normalizer.
//!
//! A decoded sample travels through the library as a 32-bit word: for an
//! integer encoding the sign-extended sample value, for 32-bit float the
//! IEEE 754 bit pattern. A word that the codec could not decode is `None`.
//!
//! The normalizer maps a word to an integer amplitude on a fixed scale
//! (`full_scale`): the amplitude in [-1, 1] is `sample_value / full_scale`.

use vstd::prelude::*;
use vstd::arithmetic::power2::{pow2, lemma_pow2_pos, lemma2_to64, lemma_pow2_strictly_increases};
use vstd::bits::{lemma_u64_shl_is_mul, lemma_u64_shr_is_div};

verus! {

/// Whether samples are signed integers or IEEE 754 floats.
#[derive(Debug, Clone, Copy, PartialEq, Eq, Structural)]
pub enum SampleFormat {
    Integer,
    Float,
}

/// The header fields of a PCM asset.
#[derive(Debug, Clone, Copy, PartialEq, Eq, Structural)]
pub struct AudioSpec {
    pub channels: u16,
    pub sample_rate: u32,
    pub bits_per_sample: u16,
    pub sample_format: SampleFormat,
}

/// The encodings that the stereo classifier can normalize.
#[derive(Debug, Clone, Copy, PartialEq, Eq, Structural)]
pub enum Encoding {
    Int16,
    Int24,
    Int32,
    Float32,
}

/// The encoding that a (format, bit depth) pair denotes, if it is one the
/// classifier supports.
pub open spec fn encoding_spec(format: SampleFormat, bits: u16) -> Option<Encoding> {
    match format {
        SampleFormat::Integer => if bits == 16 {
            Some(Encoding::Int16)
        } else if bits == 24 {
            Some(Encoding::Int24)
        } else if bits == 32 {
            Some(Encoding::Int32)
        } else {
            None
        },
        SampleFormat::Float => if bits == 32 {
            Some(Encoding::Float32)
        } else {
            None
        },
    }
}

/// Picks the classifier's encoding for a header, or `None` where the pair
/// of sample format and bit depth is not a supported combination.
pub fn encoding_of(spec: &AudioSpec) -> (r: Option<Encoding>)
    ensures
        r == encoding_spec(spec.sample_format, spec.bits_per_sample),
{
    match spec.sample_format {
        SampleFormat::Integer => if spec.bits_per_sample == 16 {
            Some(Encoding::Int16)
        } else if spec.bits_per_sample == 24 {
            Some(Encoding::Int24)
        } else if spec.bits_per_sample == 32 {
            Some(Encoding::Int32)
        } else {
            None
        },
        SampleFormat::Float => if spec.bits_per_sample == 32 {
            Some(Encoding::Float32)
        } else {
            None
        },
    }
}

/// Full scale of an encoding: the largest positive integer sample, and
/// 2^31 for floats, whose words are normalized to amplitude times 2^31.
pub open spec fn full_scale(enc: Encoding) -> int {
    match enc {
        Encoding::Int16 => 32767,
        Encoding::Int24 => 8388607,
        Encoding::Int32 => 2147483647,
        Encoding::Float32 => 2147483648,
    }
}

pub fn full_scale_of(enc: Encoding) -> (r: u64)
    ensures
        r == full_scale(enc),
{
    match enc {
        Encoding::Int16 => 32767,
        Encoding::Int24 => 8388607,
        Encoding::Int32 => 2147483647,
        Encoding::Float32 => 2147483648,
    }
}

/// Largest magnitude of a normalized float sample (2^44, an amplitude of
/// 8192); larger amplitudes and infinities saturate there.
pub const FLOAT_LIMIT: u64 = 17592186044416;

/// Magnitude of an IEEE 754 single, times 2^31, truncated toward zero and
/// saturated at `FLOAT_LIMIT`. A NaN counts as silence.
pub open spec fn float_magnitude(bits: u32) -> int {
    let e = (bits >> 23u32) & 0xffu32;
    let f = bits & 0x7fffffu32;
    if e == 255 {
        if f == 0 { FLOAT_LIMIT as int } else { 0 }
    } else {
        let m: int = if e == 0 { f as int } else { f + 0x800000 };
        let ex: int = if e == 0 { 1 } else { e as int };
        if ex >= 119 {
            let v = m * pow2((ex - 119) as nat);
            if v < FLOAT_LIMIT { v } else { FLOAT_LIMIT as int }
        } else {
            m / (pow2((119 - ex) as nat) as int)
        }
    }
}

/// The value of an IEEE 754 single, times 2^31, truncated toward zero.
pub open spec fn float_fixed(bits: u32) -> int {
    if bits >> 31u32 == 1 { -float_magnitude(bits) } else { float_magnitude(bits) }
}

/// The normalized value of a decoded word; an undecodable one is silence.
pub open spec fn sample_value(enc: Encoding, w: Option<i32>) -> int {
    match w {
        None => 0,
        Some(x) => match enc {
            Encoding::Float32 => float_fixed(x as u32),
            _ => x as int,
        },
    }
}

pub proof fn lemma_float_magnitude_bounded(bits: u32)
    ensures
        0 <= float_magnitude(bits) <= FLOAT_LIMIT,
{
    let e = (bits >> 23u32) & 0xffu32;
    let f = bits & 0x7fffffu32;
    assert(f < 0x800000) by (bit_vector)
        requires f == bits & 0x7fffffu32;
    if e != 255 {
        let m: int = if e == 0 { f as int } else { f + 0x800000 };
        let ex: int = if e == 0 { 1 } else { e as int };
        if ex < 119 {
            lemma_pow2_pos((119 - ex) as nat);
            assert(m / (pow2((119 - ex) as nat) as int) <= m) by (nonlinear_arith)
                requires m >= 0, pow2((119 - ex) as nat) > 0;
            assert(m < 0x1000000);
            assert(FLOAT_LIMIT == 17592186044416);
        } else {
            lemma_pow2_pos((ex - 119) as nat);
            assert(m * pow2((ex - 119) as nat) >= 0) by (nonlinear_arith)
                requires m >= 0, pow2((ex - 119) as nat) > 0;
        }
    }
}

/// Every normalized sample lies within `FLOAT_LIMIT` of zero.
pub proof fn lemma_sample_value_bounded(enc: Encoding, w: Option<i32>)
    ensures
        -(FLOAT_LIMIT as int) <= sample_value(enc, w) <= FLOAT_LIMIT,
{
    if let Some(x) = w {
        if enc == Encoding::Float32 {
            lemma_float_magnitude_bounded(x as u32);
        }
    }
}

/// Decodes an IEEE 754 single, given by its bits, to `float_fixed`.
pub fn float_fixed_of(bits: u32) -> (r: i64)
    ensures
        r == float_fixed(bits),
{
    let e: u32 = (bits >> 23u32) & 0xffu32;
    let f: u32 = bits & 0x7fffffu32;
    assert(f < 0x800000) by (bit_vector)
        requires f == bits & 0x7fffffu32;
    assert(e <= 0xff) by (bit_vector)
        requires e == (bits >> 23u32) & 0xffu32;
    proof {
        lemma2_to64();
    }
    let mag: u64 = if e == 255 {
        if f == 0 { FLOAT_LIMIT } else { 0 }
    } else {
        let m: u64 = if e == 0 { f as u64 } else { f as u64 + 0x800000 };
        let ex: u32 = if e == 0 { 1 } else { e };
        if ex >= 140 {
            proof {
                if ex > 140 {
                    lemma_pow2_strictly_increases(21, (ex - 119) as nat);
                }
                assert(m * pow2((ex - 119) as nat) >= 0x800000 * pow2(21)) by (nonlinear_arith)
                    requires m >= 0x800000, pow2((ex - 119) as nat) >= pow2(21);
            }
            FLOAT_LIMIT
        } else if ex >= 119 {
            let s: u64 = (ex - 119) as u64;
            proof {
                if s < 20 {
                    lemma_pow2_strictly_increases(s as nat, 20);
                }
                assert(m * pow2(s as nat) < 0x1000000 * pow2(20)) by (nonlinear_arith)
                    requires m < 0x1000000, pow2(s as nat) <= pow2(20), pow2(s as nat) > 0;
                lemma_pow2_pos(s as nat);
                lemma_u64_shl_is_mul(m, s);
            }
            m << s
        } else if ex <= 95 {
            proof {
                let d = (119 - ex) as nat;
                if d > 24 {
                    lemma_pow2_strictly_increases(24, d);
                }
                assert((m as int) / (pow2(d) as int) == 0) by (nonlinear_arith)
                    requires 0 <= m < 0x1000000, pow2(d) >= 0x1000000;
            }
            0
        } else {
            let s: u64 = (119 - ex) as u64;
            proof {
                lemma_u64_shr_is_div(m, s);
            }
            m >> s
        }
    };
    assert(mag == float_magnitude(bits));
    proof {
        lemma_float_magnitude_bounded(bits);
    }
    if bits >> 31u32 == 1 {
        -(mag as i64)
    } else {
        mag as i64
    }
}

/// Normalizes one decoded word (see `sample_value`).
pub fn sample_value_of(enc: Encoding, w: Option<i32>) -> (r: i64)
    ensures
        r == sample_value(enc, w),
{
    match w {
        None => 0,
        Some(x) => match enc {
            Encoding::Float32 => float_fixed_of(x as u32),
            _ => x as i64,
        },
    }
}

} // verus!
