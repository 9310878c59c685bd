//! Detects stereo WAV assets whose two channels carry the same signal
//! ("dual mono") and reduces them to one channel in their own encoding.
//!
//! All sample arithmetic is exact integer arithmetic over the values that
//! the WAV codec decodes; no floating point is involved in a verdict.

pub mod encoding;
pub mod classifier;
pub mod extractor;
pub mod codec;
pub mod pipeline;
pub mod laws;
