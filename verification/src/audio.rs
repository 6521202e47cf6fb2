//! Audio data shared between the caches and the players.

use vstd::prelude::*;

verus! {

/// A fully decoded, interleaved PCM buffer ready for playback.
///
/// Each sample is kept as the IEEE-754 bit pattern of a 32-bit float, so the
/// buffer occupies exactly four bytes per sample.
#[derive(Clone, Debug)]
pub struct DecodedBuffer {
    /// Interleaved samples (`frames * channels` of them), as `f32` bit patterns.
    pub data: Vec<u32>,
    /// Number of interleaved channels.
    pub channels: usize,
    /// Sample rate in Hz.
    pub sample_rate: u32,
    /// Number of frames (samples per channel).
    pub frames: usize,
}

impl DecodedBuffer {
    /// The number of bytes the sample data occupies: four per sample.
    pub open spec fn spec_size_bytes(&self) -> int {
        self.data@.len() as int * 4
    }
}

} // verus!
