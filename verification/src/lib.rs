//! A multi-track audio playback core.
//!
//! Clips are decoded by a [`source::Source`], brought to the layout of the
//! output device by a [`source_reader::SourceReader`], played by a channel,
//! summed by the mixer, and handed to the device under the eyes of a small
//! lifecycle state machine. Samples are signed 16-bit PCM throughout.

pub mod builder;
pub mod channel;
pub mod config;
pub mod engine;
pub mod frame;
pub mod mixer;
mod queue;
pub mod sample;
pub mod sample_rate;
pub mod source;
pub mod source_reader;
pub mod track;

