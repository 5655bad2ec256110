//! The output stream as it was agreed with the device, and the sizes that
//! the engine derives from it.

use crate::sample_rate::SampleRate;
use vstd::prelude::*;

verus! {

/// The format in which the device takes its samples.
#[derive(Clone, Copy, Debug, PartialEq, Eq, Structural)]
pub enum SampleFormat {
    /// Signed 16-bit integers around 0.
    I16,
    /// Unsigned 16-bit integers around 32768.
    U16,
    /// Floating point between -1.0 and 1.0.
    Float,
}

/// The number of frames that the device asks for at a time.
#[derive(Clone, Copy, Debug, PartialEq, Eq, Structural)]
pub enum BufferSize {
    /// Whatever the device takes by itself.
    Default,
    Fixed(u32),
}

/// The parameters that a stream is opened with.
#[derive(Clone, Copy, Debug, PartialEq, Eq, Structural)]
pub struct StreamConfig {
    pub channels: u16,
    pub sample_rate: SampleRate,
    pub buffer_size: BufferSize,
}

/// A configuration that the device has offered.
#[derive(Clone, Copy, Debug, PartialEq, Eq, Structural)]
pub struct SupportedStreamConfig {
    pub channels: u16,
    pub sample_rate: SampleRate,
    pub sample_format: SampleFormat,
}

/// The frames per buffer that are assumed where the stream names none.
pub const DEFAULT_BUFFER_FRAMES: u32 = 1024;

/// The frames per buffer that the engine asks of the device.
pub const STREAM_BUFFER_FRAMES: u32 = 64;

/// The mixed samples that may wait for the device.
pub const DEVICE_QUEUE_CAPACITY: usize = 1024;

/// The commands that may wait for the engine.
pub const COMMAND_QUEUE_CAPACITY: usize = 1;

impl SupportedStreamConfig {
    /// The stream parameters of this configuration, with the buffer size left
    /// to the device.
    pub fn config(&self) -> (config: StreamConfig)
        ensures
            config == (StreamConfig {
                channels: self.channels,
                sample_rate: self.sample_rate,
                buffer_size: BufferSize::Default,
            }),
    {
        StreamConfig {
            channels: self.channels,
            sample_rate: self.sample_rate,
            buffer_size: BufferSize::Default,
        }
    }

    /// The parameters that the engine opens its output stream with: those of
    /// this configuration, in buffers of `STREAM_BUFFER_FRAMES` frames.
    pub fn stream_config(&self) -> (config: StreamConfig)
        ensures
            config == (StreamConfig {
                channels: self.channels,
                sample_rate: self.sample_rate,
                buffer_size: BufferSize::Fixed(STREAM_BUFFER_FRAMES),
            }),
    {
        let mut config = self.config();
        config.buffer_size = BufferSize::Fixed(STREAM_BUFFER_FRAMES);
        config
    }
}

impl StreamConfig {
    /// The frames in one buffer of the stream.
    pub open spec fn spec_buffer_frames(&self) -> nat {
        match self.buffer_size {
            BufferSize::Fixed(frames) => frames as nat,
            BufferSize::Default => DEFAULT_BUFFER_FRAMES as nat,
        }
    }

    pub fn buffer_frames(&self) -> (frames: usize)
        ensures
            frames == self.spec_buffer_frames(),
    {
        match self.buffer_size {
            BufferSize::Fixed(frames) => frames as usize,
            BufferSize::Default => DEFAULT_BUFFER_FRAMES as usize,
        }
    }

    /// The samples that one channel may produce ahead of the mixer: two
    /// buffers' worth, as far as the machine can count.
    pub fn channel_queue_capacity(&self) -> (capacity: usize)
        ensures
            capacity == if 2 * self.spec_buffer_frames() <= usize::MAX {
                2 * self.spec_buffer_frames()
            } else {
                usize::MAX as nat
            },
    {
        let frames = self.buffer_frames();
        if frames <= usize::MAX / 2 {
            frames * 2
        } else {
            usize::MAX
        }
    }
}

} // verus!
