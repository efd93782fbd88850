//! The parameters shared by every synthesis call.

use vstd::prelude::*;
use crate::error::SynthError;

verus! {

/// Parameters of a synthesis run. Frequencies are in Hz, phases in turns and
/// the amplitude scaling is a factor, all in fixed point.
#[derive(Debug, Clone, Copy, PartialEq, Eq, Structural)]
pub struct SynthConfig {
    /// Samples per second.
    pub sample_rate: u32,
    /// Lowest frequency of interest; informational.
    pub min_frequency: i64,
    /// Highest frequency of interest; informational.
    pub max_frequency: i64,
    /// Factor applied to every output sample.
    pub amplitude_scaling: i64,
    /// Phase added to every oscillator, in turns.
    pub phase_offset: i64,
    /// Added to every requested frequency.
    pub tuning_offset_hz: i64,
    /// Tempo in cycles per second.
    pub cps: i64,
}

impl SynthConfig {
    /// A usable configuration: at least one sample per second.
    pub open spec fn wf(&self) -> bool {
        self.sample_rate > 0
    }

    /// A configuration from its parameters; a zero sample rate or a tempo
    /// that is not positive is refused.
    pub fn new(
        sample_rate: u32,
        min_frequency: i64,
        max_frequency: i64,
        amplitude_scaling: i64,
        phase_offset: i64,
        tuning_offset_hz: i64,
        cps: i64,
    ) -> (r: Result<SynthConfig, SynthError>)
        ensures
            (sample_rate == 0 || cps <= 0) <==> r is Err,
            r is Err ==> r == Err::<SynthConfig, SynthError>(SynthError::InvalidParameter),
            r matches Ok(c) ==> c == (SynthConfig {
                sample_rate,
                min_frequency,
                max_frequency,
                amplitude_scaling,
                phase_offset,
                tuning_offset_hz,
                cps,
            }) && c.wf(),
    {
        if sample_rate == 0 || cps <= 0 {
            return Err(SynthError::InvalidParameter);
        }
        Ok(
            SynthConfig {
                sample_rate,
                min_frequency,
                max_frequency,
                amplitude_scaling,
                phase_offset,
                tuning_offset_hz,
                cps,
            },
        )
    }
}

} // verus!
