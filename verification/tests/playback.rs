use crossbeam::channel::bounded;
use dawlib::builder::{
    BuildError, ChannelModel, ClipModel, MixerModel, PlayableClip, PlaybackBuilder,
};
use dawlib::channel::{Channel, ChannelStep, Pumped};
use dawlib::config::{BufferSize, StreamConfig};
use dawlib::mixer::Mixer;
use dawlib::sample_rate::SampleRate;
use dawlib::source::Source;
use dawlib::source_reader::{SourceReader, RESAMPLE_CHUNK_FRAMES, RESAMPLE_SUB_CHUNKS};
use dawlib::track::Track;
use rubato::{FftFixedOut, Resampler};

struct Clip {
    samples: Vec<i16>,
    at: usize,
    channels: usize,
    rate: u32,
}

impl Clip {
    fn mono(samples: Vec<i16>) -> Clip {
        Clip { samples, at: 0, channels: 1, rate: 22050 }
    }
}

impl Source for Clip {
    fn channels(&self) -> usize {
        self.channels
    }

    fn sample_rate(&self) -> SampleRate {
        SampleRate(self.rate)
    }

    fn next(&mut self) -> Option<i16> {
        let sample = self.samples.get(self.at).copied();
        if sample.is_some() {
            self.at += 1;
        }
        sample
    }
}

fn stereo_out() -> StreamConfig {
    StreamConfig { channels: 2, sample_rate: SampleRate(44100), buffer_size: BufferSize::Default }
}

fn clip_model(path: &str) -> ClipModel {
    ClipModel { path: path.to_string(), start_time_ms: 0, duration_ms: 10 }
}

fn reader(samples: Vec<i16>, input_frames: usize) -> SourceReader<Clip> {
    SourceReader::new(Clip::mono(samples), &stereo_out(), input_frames).ok().unwrap()
}

fn channel_of(samples: Vec<i16>, input_frames: usize) -> Channel<Clip> {
    Channel::new(vec![PlayableClip {
        reader: reader(samples, input_frames),
        clip_model: clip_model("sounds/sample-1.wav"),
    }])
}

/// Answers a request to resample by handing the staged stretch back as it is.
fn pass_through(channel: &mut Channel<Clip>) {
    let reader = channel.reader_mut();
    let staged = reader.pending_input().clone();
    let frames = reader.input_frames();
    assert!(reader.load(Some(staged), frames));
}

#[test]
fn a_clip_model_is_copied_field_by_field() {
    let model = ClipModel { path: "sounds/sample-3.wav".to_string(), start_time_ms: -5, duration_ms: 10 };
    let copy = model.clone();
    assert_eq!(copy.path, "sounds/sample-3.wav");
    assert_eq!(copy.start_time_ms, -5);
    assert_eq!(copy.duration_ms, 10);
}

#[test]
fn a_channel_without_clips_is_idle() {
    let mut channel: Channel<Clip> = Channel::new(Vec::new());
    assert_eq!(channel.poll(), ChannelStep::Idle);
    assert_eq!(channel.poll(), ChannelStep::Idle);
    let (mixer_in, mixer_out) = bounded::<i16>(1);
    assert_eq!(channel.pump(&mixer_in), Pumped::Idle);
    assert!(mixer_out.is_empty());
}

#[test]
fn a_channel_plays_its_clip_and_then_silence_for_ever() {
    let mut channel = channel_of(vec![3, 4], 2);
    let mut steps = Vec::new();
    for _ in 0..12 {
        match channel.poll() {
            ChannelStep::Resample => pass_through(&mut channel),
            step => steps.push(step),
        }
    }
    assert_eq!(steps[..3], [ChannelStep::Sample(3), ChannelStep::Sample(3), ChannelStep::Sample(4)]);
    assert_eq!(steps.len(), 11);
    assert!(steps[3..].iter().all(|step| *step == ChannelStep::Silence));
}

#[test]
fn a_channel_plays_only_its_first_clip() {
    let mut channel = Channel::new(vec![
        PlayableClip { reader: reader(vec![1], 1), clip_model: clip_model("first") },
        PlayableClip { reader: reader(vec![2, 2, 2], 1), clip_model: clip_model("second") },
    ]);
    let mut samples = Vec::new();
    for _ in 0..8 {
        match channel.poll() {
            ChannelStep::Resample => pass_through(&mut channel),
            ChannelStep::Sample(sample) => samples.push(sample),
            ChannelStep::Silence => samples.push(0),
            ChannelStep::Idle => panic!("a channel with clips is never idle"),
        }
    }
    assert_eq!(samples, vec![1, 0, 0, 0, 0, 0, 0]);
}

#[test]
fn a_channel_sends_what_it_plays() {
    let mut channel = channel_of(vec![3, 4], 2);
    let (mixer_in, mixer_out) = bounded::<i16>(16);
    assert_eq!(channel.pump(&mixer_in), Pumped::Resample);
    assert!(mixer_out.is_empty());
    pass_through(&mut channel);
    for _ in 0..5 {
        assert_eq!(channel.pump(&mixer_in), Pumped::Sent);
    }
    let sent: Vec<i16> = mixer_out.try_iter().collect();
    assert_eq!(sent, vec![3, 3, 4, 0, 0]);
}

#[test]
fn a_closed_queue_loses_samples_and_ends_the_silence() {
    let mut channel = channel_of(vec![3, 4], 2);
    let (mixer_in, mixer_out) = bounded::<i16>(16);
    drop(mixer_out);
    assert_eq!(channel.pump(&mixer_in), Pumped::Resample);
    pass_through(&mut channel);
    assert_eq!(channel.pump(&mixer_in), Pumped::Dropped);
    assert_eq!(channel.pump(&mixer_in), Pumped::Dropped);
    assert_eq!(channel.pump(&mixer_in), Pumped::Dropped);
    assert_eq!(channel.pump(&mixer_in), Pumped::Disconnected);
    assert_eq!(channel.pump(&mixer_in), Pumped::Disconnected);
    assert_eq!(Channel::<Clip>::send_step(ChannelStep::Idle, &mixer_in), Pumped::Idle);
    assert_eq!(Channel::<Clip>::send_step(ChannelStep::Resample, &mixer_in), Pumped::Resample);
}

#[test]
fn a_playback_has_the_described_channels_and_clips() {
    let mixer = MixerModel {
        channels: vec![
            ChannelModel {
                id: "chan-1".to_string(),
                clips: vec![clip_model("sounds/sample-1.wav"), clip_model("sounds/sample-2.wav")],
            },
            ChannelModel { id: "chan-2".to_string(), clips: vec![] },
            ChannelModel { id: "chan-3".to_string(), clips: vec![clip_model("sounds/sample-3.wav")] },
        ],
    };
    let readers = vec![vec![reader(vec![1], 11), reader(vec![2], 12)], vec![], vec![reader(vec![3], 13)]];
    let playback = PlaybackBuilder::new(&mixer, readers, stereo_out()).ok().unwrap();
    assert_eq!(playback.len(), 3);
    assert_eq!(playback.config(), stereo_out());
    let mut channels = playback.into_channels();
    assert_eq!(channels.len(), 3);
    assert_eq!(channels[0].reader_mut().input_frames(), 11);
    assert_eq!(channels[2].reader_mut().input_frames(), 13);
    assert_eq!(channels[1].poll(), ChannelStep::Idle);
    assert_eq!(channels[0].poll(), ChannelStep::Resample);
    assert_eq!(channels[0].reader_mut().pending_input()[0][0], 1);
    assert_eq!(channels[2].poll(), ChannelStep::Resample);
    assert_eq!(channels[2].reader_mut().pending_input()[0][0], 3);
}

#[test]
fn a_playback_is_not_built_from_the_wrong_readers() {
    let mixer = MixerModel {
        channels: vec![
            ChannelModel { id: "chan-1".to_string(), clips: vec![clip_model("a")] },
            ChannelModel { id: "chan-2".to_string(), clips: vec![clip_model("b")] },
            ChannelModel { id: "chan-3".to_string(), clips: vec![clip_model("c")] },
        ],
    };
    let built = PlaybackBuilder::new(&mixer, vec![vec![reader(vec![], 1)]], stereo_out());
    assert!(matches!(built, Err(BuildError::ChannelCount)));
    let built = PlaybackBuilder::new(
        &mixer,
        vec![vec![reader(vec![], 1)], vec![], vec![]],
        stereo_out(),
    );
    assert!(matches!(built, Err(BuildError::ClipCount(1))));
    let built = PlaybackBuilder::new(
        &mixer,
        vec![vec![reader(vec![], 1)], vec![reader(vec![], 1)], vec![reader(vec![], 1), reader(vec![], 1)]],
        stereo_out(),
    );
    assert!(matches!(built, Err(BuildError::ClipCount(2))));
    let empty = MixerModel { channels: vec![] };
    let built = PlaybackBuilder::new(&empty, Vec::<Vec<SourceReader<Clip>>>::new(), stereo_out());
    assert_eq!(built.ok().unwrap().len(), 0);
}

#[test]
fn a_track_reads_its_first_reader() {
    let mut track = Track::new(reader(vec![5, 6], 2));
    track.add(reader(vec![7], 1));
    assert_eq!(track.next_sample(), dawlib::source_reader::ReadStep::Resample);
    let staged = track.reader_mut().pending_input().clone();
    assert_eq!(staged, vec![vec![5, 6]]);
    assert!(track.reader_mut().load(Some(staged), 2));
    assert_eq!(track.next_sample(), dawlib::source_reader::ReadStep::Sample(5));
    assert_eq!(track.next_sample(), dawlib::source_reader::ReadStep::Sample(5));
    assert_eq!(track.next_sample(), dawlib::source_reader::ReadStep::Sample(6));
    assert_eq!(track.next_sample(), dawlib::source_reader::ReadStep::End);
}

fn to_float(sample: i16) -> f32 {
    sample as f32 / 32767.0
}

fn to_pcm(sample: f32) -> i16 {
    (sample.max(-1.0).min(1.0) * 32767.0) as i16
}

/// One channel with a mono clip of 10 ms at 22050 Hz, played into two
/// channels at 44100 Hz through the resampler and the mixer.
#[test]
fn a_short_mono_clip_plays_at_twice_the_rate_on_both_channels() {
    let rate = SampleRate(22050);
    let clip_samples = rate.ms_to_sample(10) as usize;
    assert_eq!(clip_samples, 220);
    let samples: Vec<i16> = (0..clip_samples).map(|i| ((i % 50) as i16 - 25) * 400).collect();

    let mut resampler =
        FftFixedOut::<f32>::new(22050, 44100, RESAMPLE_CHUNK_FRAMES, RESAMPLE_SUB_CHUNKS, 1).unwrap();
    let mut output = resampler.output_buffer_allocate();

    let mixer = MixerModel {
        channels: vec![ChannelModel {
            id: "chan-1".to_string(),
            clips: vec![clip_model("sounds/sample-1.wav")],
        }],
    };
    let first = SourceReader::new(Clip::mono(samples), &stereo_out(), resampler.input_frames_next())
        .ok()
        .unwrap();
    let playback = PlaybackBuilder::new(&mixer, vec![vec![first]], stereo_out()).ok().unwrap();
    let mut channels = playback.into_channels();
    let channel = &mut channels[0];

    let (mixer_in, mixer_out) = bounded::<i16>(3 * 2 * RESAMPLE_CHUNK_FRAMES);
    let receivers = vec![mixer_out];
    let mut chunks = Vec::new();
    let mut mixed = Vec::new();
    let mut silent = 0;
    while silent < 1000 {
        match channel.poll() {
            ChannelStep::Resample => {
                let reader = channel.reader_mut();
                let input: Vec<Vec<f32>> = reader
                    .pending_input()
                    .iter()
                    .map(|samples| samples.iter().map(|sample| to_float(*sample)).collect())
                    .collect();
                // The clip is shorter than the stretch: the rest is silence.
                assert_eq!(input.len(), 1);
                assert_eq!(input[0].len(), resampler.input_frames_next());
                assert!(input[0][clip_samples..].iter().all(|sample| *sample == 0.0));
                resampler.process_into_buffer(&input, &mut output, None).unwrap();
                let chunk: Vec<Vec<i16>> = output
                    .iter()
                    .map(|samples| samples.iter().map(|sample| to_pcm(*sample)).collect())
                    .collect();
                assert_eq!(chunk[0].len(), 2 * input[0].len());
                chunks.push(chunk.clone());
                assert!(reader.load(Some(chunk), resampler.input_frames_next()));
            }
            step => {
                if step == ChannelStep::Silence {
                    silent += 1;
                } else {
                    assert_eq!(silent, 0);
                }
                assert_eq!(Channel::<Clip>::send_step(step, &mixer_in), Pumped::Sent);
                mixed.push(Mixer::tick(&receivers).mixed);
            }
        }
    }

    // One stretch held the whole clip, and came back twice as long.
    assert_eq!(chunks.len(), 1);
    let chunk = &chunks[0][0];
    assert_eq!(chunk.len(), RESAMPLE_CHUNK_FRAMES);
    // Both output channels get every resampled sample, up to the last one,
    // which is read once before the next stretch is asked for.
    let played = mixed.len() - 1000;
    assert_eq!(played, 2 * RESAMPLE_CHUNK_FRAMES - 1);
    for frame in 0..RESAMPLE_CHUNK_FRAMES - 1 {
        assert_eq!(mixed[2 * frame], chunk[frame]);
        assert_eq!(mixed[2 * frame + 1], chunk[frame]);
    }
    assert_eq!(mixed[played - 1], chunk[RESAMPLE_CHUNK_FRAMES - 1]);
    assert!(chunk.iter().any(|sample| *sample != 0));
    // Then silence, for as long as anyone asks.
    assert!(mixed[played..].iter().all(|sample| *sample == 0));
    assert_eq!(channel.poll(), ChannelStep::Silence);
}
