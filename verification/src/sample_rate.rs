//! Sample rates, and the conversion between a time in milliseconds and a
//! count of samples at a rate.

use vstd::prelude::*;

verus! {

/// A sample rate in samples per second.
#[derive(Clone, Copy, Debug, PartialEq, Eq, Structural)]
pub struct SampleRate(pub u32);

/// The whole samples that `ms` milliseconds hold at `rate` samples per second.
pub open spec fn samples_in(rate: nat, ms: nat) -> nat {
    rate * ms / 1000
}

/// The whole milliseconds that `samples` samples last at `rate` samples per
/// second. At rate 0 no time passes for no samples, and any sample takes
/// forever.
pub open spec fn millis_of(rate: nat, samples: nat) -> nat {
    if rate == 0 {
        if samples == 0 {
            0
        } else {
            u32::MAX as nat
        }
    } else {
        samples * 1000 / rate
    }
}

/// `value`, or the largest `u32` where it is beyond that.
pub open spec fn saturate(value: nat) -> nat {
    if value > u32::MAX {
        u32::MAX as nat
    } else {
        value
    }
}

impl SampleRate {
    /// The number of whole samples in `ms` milliseconds, at most `u32::MAX`.
    pub fn ms_to_sample(&self, ms: u32) -> (samples: u32)
        ensures
            samples == saturate(samples_in(self.0 as nat, ms as nat)),
    {
        assert(self.0 * ms <= 0xffff_ffff * 0xffff_ffff) by (nonlinear_arith)
            requires
                self.0 <= 0xffff_ffff,
                ms <= 0xffff_ffff,
        ;
        let product: u64 = self.0 as u64 * ms as u64;
        let samples: u64 = product / 1000;
        if samples > u32::MAX as u64 {
            u32::MAX
        } else {
            samples as u32
        }
    }

    /// The number of whole milliseconds that `sample` samples last, at most
    /// `u32::MAX`.
    pub fn sample_to_ms(&self, sample: u32) -> (ms: u32)
        ensures
            ms == saturate(millis_of(self.0 as nat, sample as nat)),
    {
        if self.0 == 0 {
            if sample == 0 {
                0
            } else {
                u32::MAX
            }
        } else {
            let scaled: u64 = sample as u64 * 1000;
            let ms: u64 = scaled / self.0 as u64;
            if ms > u32::MAX as u64 {
                u32::MAX
            } else {
                ms as u32
            }
        }
    }
}

} // verus!
