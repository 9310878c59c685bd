//! The classification pipeline over one WAV image in memory.
//!
//! One channel: kept as mono. Two channels: classified; a true stereo asset
//! is kept, a dual-mono one is reduced to its first channel in the same
//! encoding. Three or more channels: kept unanalysed. A kept asset's output
//! is its input, byte for byte. Classification and extraction each decode
//! the image afresh, as two independent passes.

use vstd::prelude::*;
use crate::encoding::{AudioSpec, SampleFormat, encoding_of, encoding_spec};
use crate::classifier::{StereoType, classify, classify_spec};
use crate::extractor::{all_decoded, decoded_values, extract_first_channel, first_channel};
use crate::codec::{
    decode_header, decode_words, encodable, encode_words, header_spec, is_encodable, wav_encoded,
    wav_header, wav_samples,
};

verus! {

/// Why an asset could not be processed.
#[derive(Debug, Clone, Copy, PartialEq, Eq, Structural)]
pub enum ProcessError {
    /// The header, or a sample that extraction needs, cannot be decoded, or
    /// a stereo header gives a sample rate of zero.
    UnreadableContainer,
    /// A stereo asset in an encoding the classifier does not normalize.
    UnsupportedEncoding { sample_format: SampleFormat, bits_per_sample: u16 },
    /// The reduced asset could not be encoded or written, for one because
    /// its header or length is beyond what the WAV writer takes.
    WriteFailure,
    /// The input path has no parent directory or no file name.
    PathFailure,
}

/// Where an asset goes, and whether its bytes were replaced.
#[derive(Debug, Clone, Copy, PartialEq, Eq, Structural)]
pub enum Disposition {
    /// One channel: kept as it is.
    Mono,
    /// Two channels with distinct content: kept as it is.
    TrueStereo,
    /// Two channels carrying one signal: reduced to the first channel.
    DualMono,
    /// Three or more channels: kept as it is, unanalysed.
    Multichannel,
}

/// The result of processing one asset.
#[derive(Debug, Clone)]
pub struct Outcome {
    pub disposition: Disposition,
    /// The bytes of the asset to route: the input itself, or the reduced
    /// mono image for `DualMono`.
    pub output: Vec<u8>,
}

impl Outcome {
    /// Whether the output replaces the input's content.
    pub fn replaces_input(&self) -> (r: bool)
        ensures
            r == (self.disposition == Disposition::DualMono),
    {
        match self.disposition {
            Disposition::DualMono => true,
            _ => false,
        }
    }
}

pub open spec fn unsupported(spec: AudioSpec) -> ProcessError {
    ProcessError::UnsupportedEncoding {
        sample_format: spec.sample_format,
        bits_per_sample: spec.bits_per_sample,
    }
}

/// The verdict on a stereo stream, or the error for an unsupported encoding.
pub open spec fn stereo_verdict(spec: AudioSpec, s: Seq<Option<i32>>) -> Result<StereoType, ProcessError> {
    match encoding_spec(spec.sample_format, spec.bits_per_sample) {
        None => Err(unsupported(spec)),
        Some(enc) => Ok(classify_spec(enc, spec.sample_rate, s)),
    }
}

/// The header of the reduced asset: one channel, all else unchanged.
pub open spec fn mono_spec(spec: AudioSpec) -> AudioSpec {
    AudioSpec { channels: 1, ..spec }
}

/// The reduced image of a decoded stream, or why there is none.
pub open spec fn reduced_image(spec: AudioSpec, s: Seq<Option<i32>>) -> Result<Seq<u8>, ProcessError> {
    let fc = first_channel(s, spec.channels);
    let m = mono_spec(spec);
    if !all_decoded(fc) {
        Err(ProcessError::UnreadableContainer)
    } else if !encodable(m, fc.len() as int) {
        Err(ProcessError::WriteFailure)
    } else {
        match wav_encoded(
            m.channels, m.sample_rate, m.bits_per_sample,
            m.sample_format == SampleFormat::Float, decoded_values(fc),
        ) {
            None => Err(ProcessError::WriteFailure),
            Some(o) => Ok(o),
        }
    }
}

/// What processing a WAV image yields: the disposition and output bytes.
pub open spec fn process_spec(b: Seq<u8>) -> Result<(Disposition, Seq<u8>), ProcessError> {
    match wav_header(b) {
        None => Err(ProcessError::UnreadableContainer),
        Some(h) => {
            let spec = header_spec(h);
            if spec.channels == 1 {
                Ok((Disposition::Mono, b))
            } else if spec.channels != 2 {
                Ok((Disposition::Multichannel, b))
            } else if spec.sample_rate == 0 {
                Err(ProcessError::UnreadableContainer)
            } else {
                match stereo_verdict(spec, wav_samples(b)) {
                    Err(e) => Err(e),
                    Ok(StereoType::TrueStereo) => Ok((Disposition::TrueStereo, b)),
                    Ok(StereoType::DualMono) => match reduced_image(spec, wav_samples(b)) {
                        Err(e) => Err(e),
                        Ok(o) => Ok((Disposition::DualMono, o)),
                    },
                }
            }
        },
    }
}

/// Classifies a stereo stream under its header's encoding; fails with
/// `UnsupportedEncoding` exactly where the encoding is not normalized.
pub fn classify_stereo(spec: &AudioSpec, words: &Vec<Option<i32>>) -> (r: Result<StereoType, ProcessError>)
    ensures
        r == stereo_verdict(*spec, words@),
{
    match encoding_of(spec) {
        None => Err(ProcessError::UnsupportedEncoding {
            sample_format: spec.sample_format,
            bits_per_sample: spec.bits_per_sample,
        }),
        Some(enc) => Ok(classify(enc, spec.sample_rate, words)),
    }
}

/// Reduces a decoded stream to its first channel and encodes it as a
/// one-channel image with the same rate, depth and format.
pub fn reduce_to_mono(spec: &AudioSpec, words: &Vec<Option<i32>>) -> (r: Result<Vec<u8>, ProcessError>)
    requires
        spec.channels >= 1,
    ensures
        match r {
            Ok(o) => reduced_image(*spec, words@) == Ok::<Seq<u8>, ProcessError>(o@),
            Err(e) => reduced_image(*spec, words@) == Err::<Seq<u8>, ProcessError>(e),
        },
{
    match extract_first_channel(spec.channels, words) {
        None => Err(ProcessError::UnreadableContainer),
        Some(mono) => {
            let m = AudioSpec { channels: 1, ..*spec };
            if !is_encodable(&m, mono.len()) {
                return Err(ProcessError::WriteFailure);
            }
            match encode_words(&m, &mono) {
                None => Err(ProcessError::WriteFailure),
                Some(o) => Ok(o),
            }
        },
    }
}

/// Processes one WAV image: routes it by channel count, classifies a stereo
/// one, and reduces a dual-mono one to its first channel.
pub fn process_wav_bytes(bytes: &Vec<u8>) -> (r: Result<Outcome, ProcessError>)
    ensures
        match r {
            Ok(o) => process_spec(bytes@) == Ok::<(Disposition, Seq<u8>), ProcessError>(
                (o.disposition, o.output@),
            ),
            Err(e) => process_spec(bytes@) == Err::<(Disposition, Seq<u8>), ProcessError>(e),
        },
{
    let spec = match decode_header(bytes) {
        None => return Err(ProcessError::UnreadableContainer),
        Some(s) => s,
    };
    if spec.channels == 1 {
        return Ok(Outcome { disposition: Disposition::Mono, output: bytes.clone() });
    }
    if spec.channels != 2 {
        return Ok(Outcome { disposition: Disposition::Multichannel, output: bytes.clone() });
    }
    if spec.sample_rate == 0 {
        return Err(ProcessError::UnreadableContainer);
    }
    let first_pass = match decode_words(bytes) {
        None => return Err(ProcessError::UnreadableContainer),
        Some(w) => w,
    };
    match classify_stereo(&spec, &first_pass) {
        Err(e) => Err(e),
        Ok(StereoType::TrueStereo) => Ok(
            Outcome { disposition: Disposition::TrueStereo, output: bytes.clone() },
        ),
        Ok(StereoType::DualMono) => {
            let second_pass = match decode_words(bytes) {
                None => return Err(ProcessError::UnreadableContainer),
                Some(w) => w,
            };
            match reduce_to_mono(&spec, &second_pass) {
                Err(e) => Err(e),
                Ok(o) => Ok(Outcome { disposition: Disposition::DualMono, output: o }),
            }
        },
    }
}

} // verus!
