//! What a client is told about the captured audio when it connects.
use vstd::prelude::*;

verus! {

/// Format of the captured stream: sample rate in Hz, interleaved channel count,
/// and the name of the sample format (such as "f32").
#[derive(Debug, Clone)]
pub struct StreamMetadata {
    pub sample_rate: u32,
    pub channels: u16,
    pub format: String,
}

} // verus!
