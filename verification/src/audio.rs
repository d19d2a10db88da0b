//! Audio capture format, processing parameters and feedback tones.
use vstd::prelude::*;

verus! {

/// Sample rate the recorder asks the device for.
pub const DEFAULT_SAMPLE_RATE: u32 = 16000;
/// Channel count the recorder asks the device for.
pub const DEFAULT_CHANNELS: u16 = 1;
/// Length of one analysis window, in milliseconds.
pub const WINDOW_SIZE_MS: u32 = 10;
/// Longest recording kept, in seconds.
pub const DEFAULT_MAX_RECORDING_DURATION_SECONDS: usize = 300;

/// Audio processing settings for speech recognition.
#[derive(Debug)]
pub struct AudioProcessor {
    pub sample_rate: u32,
}

impl AudioProcessor {
    /// Create a new audio processor for the given sample rate.
    pub fn new(sample_rate: u32) -> (p: Self)
        ensures
            p.sample_rate == sample_rate,
    {
        AudioProcessor { sample_rate }
    }

    /// Samples in one analysis window of `WINDOW_SIZE_MS` milliseconds,
    /// rounded down.
    pub fn window_size_samples(&self) -> (n: usize)
        ensures
            n == self.sample_rate * WINDOW_SIZE_MS / 1000,
    {
        (self.sample_rate as u64 * WINDOW_SIZE_MS as u64 / 1000) as usize
    }
}

impl Default for AudioProcessor {
    fn default() -> (p: Self)
        ensures
            p.sample_rate == DEFAULT_SAMPLE_RATE,
    {
        AudioProcessor::new(16000)
    }
}

/// Types of beeps for different events.
#[derive(Debug, Clone, Copy, PartialEq, Eq, Structural)]
pub enum BeepType {
    /// Recording started — short ascending tone.
    RecordingStart,
    /// Recording stopped — short descending tone.
    RecordingStop,
    /// Success — double beep.
    Success,
    /// Error occurred — low warbling tone.
    Error,
}

} // verus!
