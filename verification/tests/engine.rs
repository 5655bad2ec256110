use crossbeam::channel::bounded;
use dawlib::config::{BufferSize, SampleFormat, StreamConfig, SupportedStreamConfig};
use dawlib::engine::{
    next_output, output_sample, EngineCommand, EngineState, EngineStateMachine, Sources,
};
use dawlib::sample_rate::SampleRate;
use dawlib::source::Source;
use dawlib::source_reader::{ReadStep, SourceReader};

struct Clip {
    samples: Vec<i16>,
    at: usize,
}

impl Source for Clip {
    fn channels(&self) -> usize {
        1
    }

    fn sample_rate(&self) -> SampleRate {
        SampleRate(22050)
    }

    fn next(&mut self) -> Option<i16> {
        let sample = self.samples.get(self.at).copied();
        if sample.is_some() {
            self.at += 1;
        }
        sample
    }
}

fn after(commands: &[EngineCommand]) -> EngineState {
    let mut machine = EngineStateMachine::new();
    for command in commands {
        machine.next(*command);
    }
    machine.state()
}

#[test]
fn the_engine_starts_idle() {
    assert_eq!(EngineStateMachine::new().state(), EngineState::Idle);
}

#[test]
fn play_starts_and_resumes_and_pause_halts() {
    assert_eq!(after(&[EngineCommand::Play]), EngineState::Playing);
    assert_eq!(after(&[EngineCommand::Play, EngineCommand::Pause]), EngineState::Paused);
    assert_eq!(after(&[EngineCommand::Play, EngineCommand::Pause, EngineCommand::Play]), EngineState::Playing);
}

#[test]
fn other_commands_change_nothing() {
    assert_eq!(after(&[EngineCommand::Pause]), EngineState::Idle);
    assert_eq!(after(&[EngineCommand::Pause, EngineCommand::Pause]), EngineState::Idle);
    assert_eq!(after(&[EngineCommand::Play, EngineCommand::Play]), EngineState::Playing);
    assert_eq!(after(&[EngineCommand::Play, EngineCommand::Pause, EngineCommand::Pause]), EngineState::Paused);
}

#[test]
fn play_is_the_command_to_play() {
    let mut machine = EngineStateMachine::new();
    machine.play();
    assert_eq!(machine.state(), EngineState::Playing);
    machine.play();
    assert_eq!(machine.state(), EngineState::Playing);
    machine.next(EngineCommand::Pause);
    machine.play();
    assert_eq!(machine.state(), EngineState::Playing);
}

#[test]
fn the_device_gets_silence_for_a_closed_queue() {
    assert_eq!(output_sample(Some(123)), 123);
    assert_eq!(output_sample(Some(-32768)), -32768);
    assert_eq!(output_sample(None), 0);
    let (mixed_in, mixed_out) = bounded::<i16>(2);
    mixed_in.send(55).unwrap();
    drop(mixed_in);
    assert_eq!(next_output(&mixed_out), 55);
    assert_eq!(next_output(&mixed_out), 0);
    assert_eq!(next_output(&mixed_out), 0);
}

#[test]
fn registered_sources_mix_with_the_mix_held_after_every_one() {
    assert_eq!(Sources::<Clip>::mix(&vec![]), Some(0));
    assert_eq!(Sources::<Clip>::mix(&vec![Some(5), Some(6)]), Some(11));
    assert_eq!(Sources::<Clip>::mix(&vec![Some(5), None, Some(6)]), Some(11));
    assert_eq!(Sources::<Clip>::mix(&vec![None, Some(-3)]), Some(-3));
    // 0.9 + 0.9 is held to 1.0 before 0.9 is taken off again.
    assert_eq!(Sources::<Clip>::mix(&vec![Some(29490), Some(29490), Some(-29490)]), Some(3277));
    assert_eq!(
        Sources::<Clip>::mix(&vec![Some(29490), Some(29490), Some(29490), Some(29490)]),
        Some(32767)
    );
    assert_eq!(Sources::<Clip>::mix(&vec![Some(-32768)]), Some(-32767));
}

#[test]
fn the_mix_is_over_when_every_source_has_ended() {
    assert_eq!(Sources::<Clip>::mix(&vec![None]), None);
    assert_eq!(Sources::<Clip>::mix(&vec![None, None, None]), None);
    assert_eq!(Sources::<Clip>::mix(&vec![None, None, Some(0)]), Some(0));
}

#[test]
fn sources_are_registered_in_their_order() {
    let config = StreamConfig {
        channels: 2,
        sample_rate: SampleRate(44100),
        buffer_size: BufferSize::Default,
    };
    let mut sources = Sources::new();
    assert_eq!(sources.len(), 0);
    sources.add(SourceReader::new(Clip { samples: vec![1, 2], at: 0 }, &config, 2).ok().unwrap());
    sources.add(SourceReader::new(Clip { samples: vec![9], at: 0 }, &config, 1).ok().unwrap());
    assert_eq!(sources.len(), 2);
    assert_eq!(sources.reader_mut(0).input_frames(), 2);
    assert_eq!(sources.reader_mut(1).input_frames(), 1);
    assert_eq!(sources.reader_mut(1).next(), ReadStep::Resample);
    assert_eq!(sources.reader_mut(1).pending_input(), &vec![vec![9]]);
    assert!(sources.reader_mut(0).pending_input().is_empty());
}

#[test]
fn a_stream_is_opened_in_small_buffers() {
    let offered = SupportedStreamConfig {
        channels: 2,
        sample_rate: SampleRate(44100),
        sample_format: SampleFormat::Float,
    };
    assert_eq!(
        offered.config(),
        StreamConfig {
            channels: 2,
            sample_rate: SampleRate(44100),
            buffer_size: BufferSize::Default
        }
    );
    assert_eq!(
        offered.stream_config(),
        StreamConfig {
            channels: 2,
            sample_rate: SampleRate(44100),
            buffer_size: BufferSize::Fixed(64)
        }
    );
}

#[test]
fn a_channel_may_run_two_buffers_ahead() {
    let mut config = StreamConfig {
        channels: 2,
        sample_rate: SampleRate(44100),
        buffer_size: BufferSize::Default,
    };
    assert_eq!(config.buffer_frames(), 1024);
    assert_eq!(config.channel_queue_capacity(), 2048);
    config.buffer_size = BufferSize::Fixed(64);
    assert_eq!(config.buffer_frames(), 64);
    assert_eq!(config.channel_queue_capacity(), 128);
    config.buffer_size = BufferSize::Fixed(0);
    assert_eq!(config.buffer_frames(), 0);
    assert_eq!(config.channel_queue_capacity(), 0);
}
