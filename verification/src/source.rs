//! Decoded audio as the engine takes it in, and the sample encodings of a
//! WAV stream.

use crate::sample::{i24_to_i16, i32_to_i16, i8_to_i16, Sample};
use crate::sample_rate::SampleRate;
use vstd::prelude::*;

verus! {

/// A decoded clip: interleaved samples, one scalar per call, with the layout
/// they come in.
///
/// Nothing is promised of an implementation. What the engine does with a
/// source is stated for whatever the source hands out.
pub trait Source {
    /// The number of interleaved channels.
    fn channels(&self) -> usize;

    /// The rate the clip was recorded at.
    fn sample_rate(&self) -> SampleRate;

    /// The next scalar, or `None` once the clip has ended for good.
    fn next(&mut self) -> Option<Sample>;
}

/// How the samples of a WAV stream are encoded.
#[derive(Clone, Copy, Debug, PartialEq, Eq, Structural)]
pub enum WavEncoding {
    Int8,
    Int16,
    Int24,
    Int32,
    Float32,
}

impl WavEncoding {
    /// The encoding of a stream of integer or floating-point samples of
    /// `bits_per_sample` bits each, where the engine can play it.
    pub open spec fn spec_classify(float: bool, bits_per_sample: u16) -> Option<WavEncoding> {
        if !float && bits_per_sample == 8 {
            Some(WavEncoding::Int8)
        } else if !float && bits_per_sample == 16 {
            Some(WavEncoding::Int16)
        } else if !float && bits_per_sample == 24 {
            Some(WavEncoding::Int24)
        } else if !float && bits_per_sample == 32 {
            Some(WavEncoding::Int32)
        } else if float && bits_per_sample == 32 {
            Some(WavEncoding::Float32)
        } else {
            None
        }
    }

    pub fn classify(float: bool, bits_per_sample: u16) -> (encoding: Option<WavEncoding>)
        ensures
            encoding == Self::spec_classify(float, bits_per_sample),
    {
        if float {
            if bits_per_sample == 32 {
                Some(WavEncoding::Float32)
            } else {
                None
            }
        } else if bits_per_sample == 8 {
            Some(WavEncoding::Int8)
        } else if bits_per_sample == 16 {
            Some(WavEncoding::Int16)
        } else if bits_per_sample == 24 {
            Some(WavEncoding::Int24)
        } else if bits_per_sample == 32 {
            Some(WavEncoding::Int32)
        } else {
            None
        }
    }
}

/// One integer sample as a WAV stream holds it, in the width it was read in.
#[derive(Clone, Copy, Debug, PartialEq, Eq, Structural)]
pub enum WavSample {
    Int8(i8),
    Int16(i16),
    Int24(i32),
    Int32(i32),
}

impl WavSample {
    /// What the sample is worth in 16 bits, as a number.
    pub open spec fn pcm(self) -> int {
        match self {
            WavSample::Int8(i) => i * 256,
            WavSample::Int16(i) => i as int,
            WavSample::Int24(i) => i as int / 256,
            WavSample::Int32(i) => i as int / 65536,
        }
    }

    /// Whether the sample is within the width it was read in.
    pub open spec fn in_width(self) -> bool {
        self matches WavSample::Int24(i) ==> -0x80_0000 <= i < 0x80_0000
    }

    /// The sample in the engine's format. A read that failed counts as
    /// silence.
    pub fn to_sample(read: Option<WavSample>) -> (sample: Sample)
        ensures
            read is None ==> sample == 0,
            read matches Some(raw) ==> (raw.in_width() ==> sample == raw.pcm()),
            read matches Some(raw) ==> (sample - raw.pcm()) % 65536 == 0,
    {
        match read {
            None => 0,
            Some(WavSample::Int8(i)) => i8_to_i16(i),
            Some(WavSample::Int16(i)) => i,
            Some(WavSample::Int24(i)) => i24_to_i16(i),
            Some(WavSample::Int32(i)) => i32_to_i16(i),
        }
    }
}

} // verus!
