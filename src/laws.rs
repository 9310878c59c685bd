//! Properties of the pipeline, stated over its specification and proved.

use vstd::prelude::*;
use crate::encoding::{AudioSpec, Encoding, FLOAT_LIMIT, SampleFormat, full_scale, sample_value};
use crate::classifier::{
    StereoType, analyzed_count, audible, classify_spec, pair_audible, pair_beyond_range,
    pair_count, side, side_energy, side_rms_below_threshold, signal_start,
    lemma_signal_start_range,
};
use crate::extractor::{all_decoded, decoded_values, first_channel, frame_count};
use crate::codec::{wav_header, wav_samples};
use crate::pipeline::{Disposition, ProcessError, process_spec, stereo_verdict};

verus! {

/// A one-channel asset is passed through: the output is the input, byte
/// for byte, and no sample is looked at. This is also what makes the
/// pipeline idempotent on its own reduced output, for every reduced image
/// that hound reads back as one channel (what hound's reader makes of its
/// writer's output is not stated here).
pub proof fn lemma_mono_passes_through(b: Seq<u8>)
    requires
        wav_header(b) matches Some(h) && h.0 == 1,
    ensures
        process_spec(b) == Ok::<(Disposition, Seq<u8>), ProcessError>((Disposition::Mono, b)),
{
}

/// An asset of three or more channels is passed through unanalysed: the
/// output is the input, byte for byte.
pub proof fn lemma_multichannel_passes_through(b: Seq<u8>)
    requires
        wav_header(b) matches Some(h) && h.0 >= 3,
    ensures
        process_spec(b) == Ok::<(Disposition, Seq<u8>), ProcessError>((Disposition::Multichannel, b)),
{
}

/// Extracting the first channel of an already extracted stream, read as
/// one channel, changes nothing.
pub proof fn lemma_extraction_idempotent(s: Seq<Option<i32>>, channels: u16)
    requires
        channels >= 1,
    ensures
        first_channel(first_channel(s, channels), 1) == first_channel(s, channels),
{
    let fc = first_channel(s, channels);
    assert(frame_count(fc.len() as int, 1) == fc.len());
    assert(first_channel(fc, 1) =~= fc);
}

/// Equal input bytes give equal results, verdict included.
pub proof fn lemma_processing_deterministic(b1: Seq<u8>, b2: Seq<u8>)
    requires
        b1 == b2,
    ensures
        process_spec(b1) == process_spec(b2),
        wav_samples(b1) == wav_samples(b2),
{
}

/// Equal streams get equal verdicts.
pub proof fn lemma_classification_deterministic(
    enc: Encoding,
    sample_rate: u32,
    s1: Seq<Option<i32>>,
    s2: Seq<Option<i32>>,
)
    requires
        s1 == s2,
    ensures
        classify_spec(enc, sample_rate, s1) == classify_spec(enc, sample_rate, s2),
{
}

proof fn lemma_zero_side_energy(enc: Encoding, s: Seq<Option<i32>>, start: int, n: int)
    requires
        forall|i: int| start <= i < start + n ==> side(enc, s, i) == 0,
    ensures
        side_energy(enc, s, start, n) == 0,
    decreases n,
{
    if n > 0 {
        lemma_zero_side_energy(enc, s, start, n - 1);
    }
}

/// Where the side energy of the analysed pairs is zero, the verdict is
/// dual mono.
proof fn lemma_no_side_is_dual_mono(enc: Encoding, sample_rate: u32, s: Seq<Option<i32>>)
    requires
        forall|i: int| 0 <= i < pair_count(s) ==> side(enc, s, i) == 0,
    ensures
        classify_spec(enc, sample_rate, s) == StereoType::DualMono,
{
    lemma_signal_start_range(enc, s, 0);
    let start = signal_start(enc, s, 0);
    let n = analyzed_count(enc, sample_rate, s);
    lemma_zero_side_energy(enc, s, start, n);
    if n > 0 {
        let f = crate::encoding::full_scale(enc);
        assert(0 < f * f * n) by (nonlinear_arith)
            requires f >= 1, n >= 1;
    }
}

/// A 16-bit integer stereo stream whose channels are equal in every frame
/// is dual mono, and its reduction holds exactly the left channel's values.
pub proof fn lemma_identical_channels_reduce_exactly(spec: AudioSpec, s: Seq<Option<i32>>)
    requires
        spec.channels == 2,
        spec.sample_format == SampleFormat::Integer,
        spec.bits_per_sample == 16,
        s.len() % 2 == 0,
        all_decoded(s),
        forall|i: int| 0 <= i < s.len() / 2 ==> #[trigger] s[2 * i] == s[2 * i + 1],
    ensures
        stereo_verdict(spec, s) == Ok::<StereoType, ProcessError>(StereoType::DualMono),
        all_decoded(first_channel(s, 2)),
        decoded_values(first_channel(s, 2)) == Seq::new((s.len() / 2) as nat, |i: int| s[2 * i]->0),
{
    assert forall|i: int| 0 <= i < pair_count(s) implies side(Encoding::Int16, s, i) == 0 by {
        assert(s[2 * i] == s[2 * i + 1]);
    }
    lemma_no_side_is_dual_mono(Encoding::Int16, spec.sample_rate, s);
    let fc = first_channel(s, 2);
    assert(frame_count(s.len() as int, 2) == s.len() / 2);
    assert forall|i: int| 0 <= i < fc.len() implies (#[trigger] fc[i]) is Some by {
        assert(s[i * 2] is Some);
    }
    assert(decoded_values(fc) =~= Seq::new((s.len() / 2) as nat, |i: int| s[2 * i]->0));
}

proof fn lemma_silent_start(enc: Encoding, s: Seq<Option<i32>>, i: int)
    requires
        0 <= i <= pair_count(s),
        forall|j: int| 0 <= j < s.len() ==> sample_value(enc, #[trigger] s[j]) == 0,
    ensures
        signal_start(enc, s, i) == pair_count(s),
    decreases pair_count(s) - i,
{
    if i < pair_count(s) {
        assert(sample_value(enc, s[2 * i]) == 0);
        assert(sample_value(enc, s[2 * i + 1]) == 0);
        assert(!pair_audible(enc, s, i));
        lemma_silent_start(enc, s, i + 1);
    }
}

/// A stream of silent samples, in any encoding, is dual mono: no pair is
/// audible, so nothing is analysed.
pub proof fn lemma_silence_is_dual_mono(enc: Encoding, sample_rate: u32, s: Seq<Option<i32>>)
    requires
        forall|j: int| 0 <= j < s.len() ==> sample_value(enc, #[trigger] s[j]) == 0,
    ensures
        analyzed_count(enc, sample_rate, s) == 0,
        classify_spec(enc, sample_rate, s) == StereoType::DualMono,
{
    lemma_silent_start(enc, s, 0);
}

/// Once anything is analysed, the verdict is dual mono exactly where the
/// side signal's RMS is below -60 dBFS, however large the per-pair
/// differences are.
pub proof fn lemma_verdict_follows_side_rms(enc: Encoding, sample_rate: u32, s: Seq<Option<i32>>)
    requires
        analyzed_count(enc, sample_rate, s) > 0,
    ensures
        (classify_spec(enc, sample_rate, s) == StereoType::DualMono) == side_rms_below_threshold(
            enc,
            side_energy(enc, s, signal_start(enc, s, 0), analyzed_count(enc, sample_rate, s)),
            analyzed_count(enc, sample_rate, s),
        ),
{
}

proof fn lemma_side_energy_covers(enc: Encoding, s: Seq<Option<i32>>, start: int, n: int, j: int)
    requires
        0 <= j < n,
    ensures
        side_energy(enc, s, start, n) >= side(enc, s, start + j) * side(enc, s, start + j),
    decreases n,
{
    let x = side(enc, s, start + n - 1);
    assert(x * x >= 0) by (nonlinear_arith);
    if j < n - 1 {
        lemma_side_energy_covers(enc, s, start, n - 1, j);
    } else {
        lemma_side_energy_nonneg(enc, s, start, n - 1);
    }
}

proof fn lemma_side_energy_nonneg(enc: Encoding, s: Seq<Option<i32>>, start: int, n: int)
    ensures
        side_energy(enc, s, start, n) >= 0,
    decreases n,
{
    if n > 0 {
        let x = side(enc, s, start + n - 1);
        assert(x * x >= 0) by (nonlinear_arith);
        lemma_side_energy_nonneg(enc, s, start, n - 1);
    }
}

/// An analysed pair whose words differ while one of its values is
/// saturated makes the asset true stereo.
pub proof fn lemma_beyond_range_is_true_stereo(
    enc: Encoding,
    sample_rate: u32,
    s: Seq<Option<i32>>,
    i: int,
)
    requires
        signal_start(enc, s, 0) <= i < signal_start(enc, s, 0) + analyzed_count(enc, sample_rate, s),
        pair_beyond_range(enc, s, i),
    ensures
        classify_spec(enc, sample_rate, s) == StereoType::TrueStereo,
{
    let start = signal_start(enc, s, 0);
    let n = analyzed_count(enc, sample_rate, s);
    lemma_side_energy_covers(enc, s, start, n, i - start);
    let e = side_energy(enc, s, start, n);
    let f = full_scale(enc);
    assert(side(enc, s, i) == 0x200000000000);
    assert(e >= 0x200000000000 * 0x200000000000);
    assert(n <= 10 * sample_rate);
    assert(f * f * n <= 0x80000000 * 0x80000000 * 42949672950) by (nonlinear_arith)
        requires 0 <= f <= 0x80000000, 0 <= n <= 42949672950;
    assert(!side_rms_below_threshold(enc, e, n)) by (nonlinear_arith)
        requires
            e >= 0x200000000000 * 0x200000000000,
            f * f * n <= 0x80000000 * 0x80000000 * 42949672950,
            side_rms_below_threshold(enc, e, n) == (e * 1_000_000 < f * f * n);
}

proof fn lemma_shifted_start(enc: Encoding, q: Seq<Option<i32>>, s: Seq<Option<i32>>, i: int)
    requires
        q.len() % 2 == 0,
        0 <= i <= pair_count(s),
    ensures
        signal_start(enc, q + s, q.len() / 2 + i) == q.len() / 2 + signal_start(enc, s, i),
    decreases pair_count(s) - i,
{
    let t = q + s;
    let kq = q.len() as int / 2;
    assert(pair_count(t) == kq + pair_count(s));
    if i < pair_count(s) {
        assert(t[2 * (kq + i)] == s[2 * i]);
        assert(t[2 * (kq + i) + 1] == s[2 * i + 1]);
        if !pair_audible(enc, s, i) {
            lemma_shifted_start(enc, q, s, i + 1);
        }
    }
}

proof fn lemma_quiet_prefix_start(enc: Encoding, q: Seq<Option<i32>>, s: Seq<Option<i32>>, i: int)
    requires
        q.len() % 2 == 0,
        0 <= i <= q.len() / 2,
        forall|j: int| 0 <= j < q.len() ==> !audible(enc, sample_value(enc, #[trigger] q[j])),
    ensures
        signal_start(enc, q + s, i) == signal_start(enc, q + s, q.len() as int / 2),
    decreases q.len() / 2 - i,
{
    let t = q + s;
    if i < q.len() / 2 {
        assert(pair_count(t) == q.len() / 2 + pair_count(s));
        assert(t[2 * i] == q[2 * i]);
        assert(t[2 * i + 1] == q[2 * i + 1]);
        assert(!audible(enc, sample_value(enc, q[2 * i])));
        assert(!audible(enc, sample_value(enc, q[2 * i + 1])));
        lemma_quiet_prefix_start(enc, q, s, i + 1);
    }
}

proof fn lemma_shifted_energy(
    enc: Encoding,
    q: Seq<Option<i32>>,
    s: Seq<Option<i32>>,
    start: int,
    n: int,
)
    requires
        q.len() % 2 == 0,
        0 <= start,
        0 <= n,
        start + n <= pair_count(s),
    ensures
        side_energy(enc, q + s, q.len() / 2 + start, n) == side_energy(enc, s, start, n),
    decreases n,
{
    if n > 0 {
        let t = q + s;
        let kq = q.len() as int / 2;
        let j = start + n - 1;
        assert(t[2 * (kq + j)] == s[2 * j]);
        assert(t[2 * (kq + j) + 1] == s[2 * j + 1]);
        assert(side(enc, t, kq + j) == side(enc, s, j));
        lemma_shifted_energy(enc, q, s, start, n - 1);
    }
}

/// Prefixing a stereo stream with quiet frames (both channels at or below
/// -60 dBFS) leaves its classification as it was: such frames fall before
/// the signal's start and outside the ten-second window.
pub proof fn lemma_leading_quiet_frames_keep_verdict(
    enc: Encoding,
    sample_rate: u32,
    q: Seq<Option<i32>>,
    s: Seq<Option<i32>>,
)
    requires
        q.len() % 2 == 0,
        forall|j: int| 0 <= j < q.len() ==> !audible(enc, sample_value(enc, #[trigger] q[j])),
    ensures
        classify_spec(enc, sample_rate, q + s) == classify_spec(enc, sample_rate, s),
        analyzed_count(enc, sample_rate, q + s) == analyzed_count(enc, sample_rate, s),
{
    let t = q + s;
    let kq = q.len() as int / 2;
    assert(pair_count(t) == kq + pair_count(s));
    lemma_quiet_prefix_start(enc, q, s, 0);
    lemma_shifted_start(enc, q, s, 0);
    lemma_signal_start_range(enc, s, 0);
    let start = signal_start(enc, s, 0);
    assert(signal_start(enc, t, 0) == kq + start);
    let n = analyzed_count(enc, sample_rate, s);
    assert(analyzed_count(enc, sample_rate, t) == n);
    lemma_shifted_energy(enc, q, s, start, n);
}

} // verus!
