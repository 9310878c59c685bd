//! The channel extractor: keeps the first channel of an interleaved word
//! stream, word for word, in its own encoding.

use vstd::prelude::*;

verus! {

/// The number of frames in `len` interleaved words, a trailing partial
/// frame included.
pub open spec fn frame_count(len: int, channels: int) -> int {
    len / channels + if len % channels == 0 { 0int } else { 1int }
}

/// The channel-0 word of every frame.
pub open spec fn first_channel(s: Seq<Option<i32>>, channels: u16) -> Seq<Option<i32>> {
    Seq::new(frame_count(s.len() as int, channels as int) as nat, |i: int| s[i * channels])
}

/// Every word of `s` was decoded.
pub open spec fn all_decoded(s: Seq<Option<i32>>) -> bool {
    forall|i: int| 0 <= i < s.len() ==> (#[trigger] s[i]) is Some
}

/// The values of a stream of decoded words.
pub open spec fn decoded_values(s: Seq<Option<i32>>) -> Seq<i32> {
    Seq::new(s.len(), |i: int| s[i]->0)
}

proof fn lemma_frame_start_in_bounds(len: int, c: int, f: int)
    requires
        c >= 1,
        len >= 0,
        0 <= f < frame_count(len, c),
    ensures
        0 <= f * c < len,
        f * c + c <= len || f + 1 == frame_count(len, c),
{
    let q = len / c;
    let r = len % c;
    assert(len == q * c + r && 0 <= r < c) by (nonlinear_arith)
        requires q == len / c, r == len % c, c >= 1;
    assert(0 <= f * c < len && (f * c + c <= len || f + 1 == frame_count(len, c)))
        by (nonlinear_arith)
        requires
            len == q * c + r,
            0 <= r < c,
            0 <= f,
            f < q + if r == 0 { 0int } else { 1int },
            frame_count(len, c) == q + if r == 0 { 0int } else { 1int },
    ;
}

/// Copies the channel-0 word of each frame; `None` if one of those words
/// could not be decoded. Words of the other channels are skipped unread.
pub fn extract_first_channel(channels: u16, words: &Vec<Option<i32>>) -> (r: Option<Vec<i32>>)
    requires
        channels >= 1,
    ensures
        r is Some <==> all_decoded(first_channel(words@, channels)),
        r matches Some(v) ==> v@ == decoded_values(first_channel(words@, channels)),
{
    let c: usize = channels as usize;
    let len: usize = words.len();
    proof {
        let q = len as int / c as int;
        assert(len % c != 0 ==> q < len) by (nonlinear_arith)
            requires q == len as int / c as int, c >= 1, len >= 0;
    }
    let frames: usize = len / c + if len % c == 0 { 0 } else { 1 };
    let ghost fc = first_channel(words@, channels);
    assert(fc.len() == frames);
    let mut out: Vec<i32> = Vec::new();
    let mut f: usize = 0;
    while f < frames
        invariant
            c == channels as usize,
            c >= 1,
            len == words.len(),
            fc == first_channel(words@, channels),
            fc.len() == frames,
            frames == frame_count(len as int, c as int),
            0 <= f <= frames,
            out@ == decoded_values(fc.take(f as int)),
            forall|j: int| 0 <= j < f ==> (#[trigger] fc[j]) is Some,
        decreases frames - f,
    {
        proof {
            lemma_frame_start_in_bounds(len as int, c as int, f as int);
        }
        let p: usize = f * c;
        match words[p] {
            None => {
                assert(!(fc[f as int] is Some));
                return None;
            },
            Some(x) => {
                out.push(x);
                assert(decoded_values(fc.take(f + 1)) =~= decoded_values(fc.take(f as int)).push(x));
            },
        }
        f = f + 1;
    }
    assert(fc.take(frames as int) =~= fc);
    Some(out)
}

} // verus!
