//! The configuration the pedal is built with: sample rate, echo delay and
//! buffer capacity, and the sample counts that follow from them.

use vstd::prelude::*;

verus! {

/// Samples per second on the duplex stream. Nominal: the stream's clock runs
/// a fraction of a percent slow.
pub const SAMPLE_RATE: usize = 48_000;

/// Time between a sample coming in and its echo going out, in milliseconds.
pub const ECHO_DELAY_MS: usize = 400;

/// Time the delay buffer can hold, in milliseconds.
pub const BUFFER_CAPACITY_MS: usize = 500;

/// Number of samples the delay buffer holds: half a second of them.
pub const BUFFER_LENGTH: usize = 24_000;

/// Number of cells the read cursor trails the write cursor by.
pub const DELAY_OFFSET: usize = 19_200;

/// Number of whole samples that pass in `millis` milliseconds.
pub open spec fn spec_samples_in(sample_rate: nat, millis: nat) -> nat {
    sample_rate * millis / 1000
}

/// Number of whole samples that pass in `millis` milliseconds at
/// `sample_rate` samples per second, or `None` if the count does not fit the
/// machine's word.
pub fn samples_in(sample_rate: usize, millis: usize) -> (samples: Option<usize>)
    ensures
        samples == if spec_samples_in(sample_rate as nat, millis as nat) <= usize::MAX {
            Some(spec_samples_in(sample_rate as nat, millis as nat) as usize)
        } else {
            None
        },
{
    let rate: u128 = sample_rate as u128;
    let time: u128 = millis as u128;
    assert(rate * time <= u128::MAX) by (nonlinear_arith)
        requires
            rate <= u64::MAX,
            time <= u64::MAX,
    ;
    let count: u128 = rate * time / 1000;
    if count <= usize::MAX as u128 {
        Some(count as usize)
    } else {
        None
    }
}

/// The built-in configuration is sound: buffer length and delay offset are
/// the sample counts of the capacity and of the echo delay, the buffer is not
/// empty, and the delay fits in it.
pub proof fn lemma_configuration_is_sound()
    ensures
        BUFFER_LENGTH == spec_samples_in(SAMPLE_RATE as nat, BUFFER_CAPACITY_MS as nat),
        DELAY_OFFSET == spec_samples_in(SAMPLE_RATE as nat, ECHO_DELAY_MS as nat),
        0 < BUFFER_LENGTH,
        DELAY_OFFSET < BUFFER_LENGTH,
{
}

} // verus!
