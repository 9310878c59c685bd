//! The stereo classifier: the energy (RMS) policy on the side signal.
//!
//! A word stream is read as interleaved (left, right) pairs; a trailing
//! unpaired word is ignored. Leading pairs in which both channels are at or
//! below -60 dBFS are skipped for good. From the first audible pair on, at
//! most ten seconds of pairs (`10 * sample_rate`) are analysed, and the
//! energy of `side = left - right` is accumulated. A float pair whose words
//! differ while one value is saturated (beyond 8192 or infinite) counts with
//! the largest side there is, so that saturation never merges distinct
//! loud samples into silence. The asset is dual mono
//! when nothing was analysed, or when the RMS of the side signal, relative
//! to full scale, is below -60 dBFS (10^-3). With `n` pairs analysed and
//! normalized values on the scale `F = full_scale`, that comparison is
//! `sqrt(energy / n) / F < 10^-3`, i.e. `energy * 10^6 < F * F * n`, which
//! is decided here exactly.

use vstd::prelude::*;
use crate::encoding::{
    Encoding, FLOAT_LIMIT, full_scale, full_scale_of, sample_value, sample_value_of,
    lemma_sample_value_bounded,
};

verus! {

/// The verdict on a two-channel asset.
#[derive(Debug, Clone, Copy, PartialEq, Eq, Structural)]
pub enum StereoType {
    /// The channels carry the same signal, up to noise below -60 dBFS.
    DualMono,
    /// The channels carry distinct content.
    TrueStereo,
}

pub open spec fn pair_count(s: Seq<Option<i32>>) -> int {
    s.len() as int / 2
}

pub open spec fn left_value(enc: Encoding, s: Seq<Option<i32>>, i: int) -> int {
    sample_value(enc, s[2 * i])
}

pub open spec fn right_value(enc: Encoding, s: Seq<Option<i32>>, i: int) -> int {
    sample_value(enc, s[2 * i + 1])
}

/// A normalized value above -60 dBFS: `|x| / full_scale > 10^-3`.
pub open spec fn audible(enc: Encoding, x: int) -> bool {
    (if x < 0 { -x } else { x }) * 1000 > full_scale(enc)
}

pub open spec fn pair_audible(enc: Encoding, s: Seq<Option<i32>>, i: int) -> bool {
    audible(enc, left_value(enc, s, i)) || audible(enc, right_value(enc, s, i))
}

/// The first audible pair at or after `i`, or `pair_count(s)` if none is.
pub open spec fn signal_start(enc: Encoding, s: Seq<Option<i32>>, i: int) -> int
    decreases pair_count(s) - i,
{
    if i >= pair_count(s) {
        pair_count(s)
    } else if pair_audible(enc, s, i) {
        i
    } else {
        signal_start(enc, s, i + 1)
    }
}

/// The number of pairs that the analysis may take: ten seconds.
pub open spec fn analysis_cap(sample_rate: u32) -> int {
    10 * sample_rate
}

/// The number of pairs analysed: from the signal's start, up to the cap.
pub open spec fn analyzed_count(enc: Encoding, sample_rate: u32, s: Seq<Option<i32>>) -> int {
    let rest = pair_count(s) - signal_start(enc, s, 0);
    if rest < analysis_cap(sample_rate) { rest } else { analysis_cap(sample_rate) }
}

/// A normalized value at the float saturation bound, where distinct
/// amplitudes may have become equal.
pub open spec fn saturated(x: int) -> bool {
    x == FLOAT_LIMIT || x == -(FLOAT_LIMIT as int)
}

/// A pair whose words differ but whose difference saturation may have
/// hidden: one of its values is saturated.
pub open spec fn pair_beyond_range(enc: Encoding, s: Seq<Option<i32>>, i: int) -> bool {
    (saturated(left_value(enc, s, i)) || saturated(right_value(enc, s, i)))
        && s[2 * i] != s[2 * i + 1]
}

/// The side signal of pair `i`: `left - right`, or the largest side there
/// is, `2 * FLOAT_LIMIT`, for a pair beyond range.
pub open spec fn side(enc: Encoding, s: Seq<Option<i32>>, i: int) -> int {
    if pair_beyond_range(enc, s, i) {
        2 * FLOAT_LIMIT
    } else {
        left_value(enc, s, i) - right_value(enc, s, i)
    }
}

/// Sum of `side^2` over the `n` pairs from pair `start` on.
pub open spec fn side_energy(enc: Encoding, s: Seq<Option<i32>>, start: int, n: int) -> int
    decreases n,
{
    if n <= 0 {
        0
    } else {
        side_energy(enc, s, start, n - 1) + side(enc, s, start + n - 1) * side(enc, s, start + n - 1)
    }
}

/// The side RMS is below -60 dBFS: `energy * 10^6 < F * F * n`.
pub open spec fn side_rms_below_threshold(enc: Encoding, energy: int, n: int) -> bool {
    energy * 1_000_000 < full_scale(enc) * full_scale(enc) * n
}

/// The verdict of the energy policy on a stream of interleaved pairs.
pub open spec fn classify_spec(enc: Encoding, sample_rate: u32, s: Seq<Option<i32>>) -> StereoType {
    let n = analyzed_count(enc, sample_rate, s);
    let energy = side_energy(enc, s, signal_start(enc, s, 0), n);
    if n == 0 || side_rms_below_threshold(enc, energy, n) {
        StereoType::DualMono
    } else {
        StereoType::TrueStereo
    }
}

pub proof fn lemma_signal_start_range(enc: Encoding, s: Seq<Option<i32>>, i: int)
    requires
        0 <= i <= pair_count(s),
    ensures
        i <= signal_start(enc, s, i) <= pair_count(s),
    decreases pair_count(s) - i,
{
    if i < pair_count(s) && !pair_audible(enc, s, i) {
        lemma_signal_start_range(enc, s, i + 1);
    }
}

/// `side^2` of one pair is at most 2^90.
proof fn lemma_side_square_bounded(enc: Encoding, s: Seq<Option<i32>>, i: int)
    requires
        0 <= i < pair_count(s),
    ensures
        0 <= side(enc, s, i) * side(enc, s, i) <= 0x40000000000000000000000,
{
    lemma_sample_value_bounded(enc, s[2 * i]);
    lemma_sample_value_bounded(enc, s[2 * i + 1]);
    let d = side(enc, s, i);
    assert(-0x200000000000 <= d <= 0x200000000000);
    assert(0 <= d * d <= 0x200000000000 * 0x200000000000) by (nonlinear_arith)
        requires -0x200000000000 <= d <= 0x200000000000;
}

fn same_word(a: Option<i32>, b: Option<i32>) -> (r: bool)
    ensures
        r == (a == b),
{
    match (a, b) {
        (Some(x), Some(y)) => x == y,
        (None, None) => true,
        _ => false,
    }
}

fn is_audible(enc: Encoding, x: i64) -> (r: bool)
    requires
        -(FLOAT_LIMIT as int) <= x <= FLOAT_LIMIT,
    ensures
        r == audible(enc, x as int),
{
    let a: i64 = if x < 0 { -x } else { x };
    a * 1000 > full_scale_of(enc) as i64
}

/// Index of the first audible pair, or the number of pairs if none is.
pub fn find_signal_start(enc: Encoding, words: &Vec<Option<i32>>) -> (r: usize)
    ensures
        r == signal_start(enc, words@, 0),
        r <= words@.len() / 2,
{
    let k: usize = words.len() / 2;
    let mut i: usize = 0;
    while i < k
        invariant
            0 <= i <= k,
            k == pair_count(words@),
            2 * k <= words.len(),
            signal_start(enc, words@, i as int) == signal_start(enc, words@, 0),
        decreases k - i,
    {
        assert(2 * i + 1 < words@.len());
        let l = sample_value_of(enc, words[2 * i]);
        let r = sample_value_of(enc, words[2 * i + 1]);
        proof {
            lemma_sample_value_bounded(enc, words@[2 * i as int]);
            lemma_sample_value_bounded(enc, words@[2 * i as int + 1]);
        }
        if is_audible(enc, l) || is_audible(enc, r) {
            return i;
        }
        i = i + 1;
    }
    i
}

/// Classifies interleaved stereo words by the energy policy.
pub fn classify(enc: Encoding, sample_rate: u32, words: &Vec<Option<i32>>) -> (r: StereoType)
    ensures
        r == classify_spec(enc, sample_rate, words@),
{
    let k: usize = words.len() / 2;
    let start = find_signal_start(enc, words);
    proof {
        lemma_signal_start_range(enc, words@, 0);
    }
    let cap: u64 = 10 * (sample_rate as u64);
    let mut n: usize = 0;
    let mut energy: u128 = 0;
    while (n as u64) < cap && n < k - start
        invariant
            k == pair_count(words@),
            2 * k <= words.len(),
            start == signal_start(enc, words@, 0),
            start <= k,
            n <= k - start,
            n <= cap,
            cap == analysis_cap(sample_rate),
            energy == side_energy(enc, words@, start as int, n as int),
            energy <= n * 0x40000000000000000000000,
        decreases k - start - n,
    {
        let idx: usize = start + n;
        assert(2 * idx + 1 < words@.len());
        let wl = words[2 * idx];
        let wr = words[2 * idx + 1];
        let l = sample_value_of(enc, wl);
        let r = sample_value_of(enc, wr);
        proof {
            lemma_sample_value_bounded(enc, words@[2 * idx as int]);
            lemma_sample_value_bounded(enc, words@[2 * idx as int + 1]);
            lemma_side_square_bounded(enc, words@, idx as int);
            assert((n + 1) * 0x40000000000000000000000 <= 42949672950 * 0x40000000000000000000000)
                by (nonlinear_arith)
                requires n + 1 <= 42949672950;
        }
        let limit: i64 = FLOAT_LIMIT as i64;
        let beyond: bool = (l == limit || l == -limit || r == limit || r == -limit)
            && !same_word(wl, wr);
        let d: i128 = if beyond { 2 * (FLOAT_LIMIT as i128) } else { (l as i128) - (r as i128) };
        let sq: u128 = (d * d) as u128;
        energy = energy + sq;
        n = n + 1;
    }
    assert(n == analyzed_count(enc, sample_rate, words@));
    if n == 0 {
        return StereoType::DualMono;
    }
    let full: u128 = full_scale_of(enc) as u128;
    proof {
        assert(full * full <= 0x4000000000000000) by (nonlinear_arith)
            requires full <= 0x80000000;
        assert(full * full * n <= 0x4000000000000000 * 42949672950) by (nonlinear_arith)
            requires full * full <= 0x4000000000000000, n <= 42949672950;
        assert(full * full * n >= 1) by (nonlinear_arith)
            requires full >= 1, n >= 1;
    }
    let bound: u128 = full * full * (n as u128);
    let q: u128 = (bound - 1) / 1_000_000;
    proof {
        let e = energy as int;
        let b = bound as int;
        assert((e <= q) == (e * 1_000_000 < b)) by (nonlinear_arith)
            requires q == (b - 1) / 1_000_000, b >= 1, e >= 0;
    }
    if energy <= q {
        StereoType::DualMono
    } else {
        StereoType::TrueStereo
    }
}

} // verus!
