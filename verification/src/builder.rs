//! The description of a playback, and the playback made from it.
//!
//! A mixer is described by its channels, a channel by its clips, and a clip
//! by the place of its audio. Building a playback pairs every described
//! clip with the reader of its decoded audio.

use crate::channel::Channel;
use crate::config::StreamConfig;
use crate::source::Source;
use crate::source_reader::SourceReader;
use vstd::prelude::*;

verus! {

/// A clip as it was described: where its audio is, and when it is meant to
/// play. Start and duration are kept for scheduling and play no part in
/// reading the clip.
#[derive(Debug)]
pub struct ClipModel {
    pub path: String,
    pub start_time_ms: i32,
    pub duration_ms: u32,
}

impl Clone for ClipModel {
    fn clone(&self) -> (copy: Self)
        ensures
            copy == *self,
    {
        ClipModel {
            path: self.path.clone(),
            start_time_ms: self.start_time_ms,
            duration_ms: self.duration_ms,
        }
    }
}

/// A clip that can be played: its reader, and its description.
pub struct PlayableClip<S: Source> {
    pub reader: SourceReader<S>,
    pub clip_model: ClipModel,
}

/// A channel as it was described: a name, and the clips to play one after
/// the other.
#[derive(Clone, Debug)]
pub struct ChannelModel {
    pub id: String,
    pub clips: Vec<ClipModel>,
}

/// A mixer as it was described: the channels that sound together.
#[derive(Clone, Debug)]
pub struct MixerModel {
    pub channels: Vec<ChannelModel>,
}

/// Why a description and the readers brought for it do not go together.
#[derive(Clone, Copy, Debug, PartialEq, Eq, Structural)]
pub enum BuildError {
    /// There are not as many lists of readers as channels.
    ChannelCount,
    /// The channel of this number has not as many readers as clips. No
    /// channel before it has that fault.
    ClipCount(usize),
}

/// A playback that is ready to run: the channels with their clips, and the
/// configuration of the stream they play into.
pub struct Playback<S: Source> {
    channels: Vec<Channel<S>>,
    config: StreamConfig,
}

/// Whether `readers` holds, channel by channel, one reader for every clip
/// of channel number `upto` and of those before it.
pub open spec fn clips_covered<S: Source>(
    mixer: &MixerModel,
    readers: Seq<Vec<SourceReader<S>>>,
    upto: int,
) -> bool {
    forall|channel: int|
        0 <= channel < upto ==> (#[trigger] readers[channel]).len()
            == mixer.channels[channel].clips.len()
}

/// Whether `readers` holds one list for every channel of `mixer`, and in it
/// one reader for every clip of that channel.
pub open spec fn covers<S: Source>(mixer: &MixerModel, readers: Seq<Vec<SourceReader<S>>>) -> bool {
    readers.len() == mixer.channels.len() && clips_covered(mixer, readers, readers.len() as int)
}

/// Whether `channel` is the channel described by `model` before it has
/// played, with `readers` to read its clips, in their order.
pub open spec fn channel_built<S: Source>(
    channel: Channel<S>,
    model: ChannelModel,
    readers: Seq<SourceReader<S>>,
) -> bool {
    &&& !channel.finished()
    &&& channel.clips().len() == readers.len()
    &&& forall|clip: int|
        0 <= clip < readers.len() ==> (#[trigger] channel.clips()[clip]).reader == readers[clip]
            && channel.clips()[clip].clip_model == model.clips[clip]
}

/// Whether channel number `channel` is the first that has not as many
/// readers as clips.
pub open spec fn clip_fault<S: Source>(
    mixer: &MixerModel,
    readers: Seq<Vec<SourceReader<S>>>,
    channel: int,
) -> bool {
    &&& 0 <= channel < readers.len()
    &&& clips_covered(mixer, readers, channel)
    &&& readers[channel].len() != mixer.channels[channel].clips.len()
}

/// Whether `playback` is the playback that `mixer` describes, for a stream
/// of `config`, with `readers` to read its clips: the described channels in
/// their order, none of which has played yet.
pub open spec fn playback_built<S: Source>(
    playback: Playback<S>,
    mixer: &MixerModel,
    readers: Seq<Vec<SourceReader<S>>>,
    config: StreamConfig,
) -> bool {
    &&& playback.spec_config() == config
    &&& playback.channels().len() == mixer.channels.len()
    &&& forall|channel: int|
        0 <= channel < mixer.channels.len() ==> channel_built(
            #[trigger] playback.channels()[channel],
            mixer.channels[channel],
            readers[channel]@,
        )
}

impl<S: Source> Playback<S> {
    /// The channels of the playback.
    pub closed spec fn channels(&self) -> Seq<Channel<S>> {
        self.channels@
    }

    /// The configuration of the stream.
    pub closed spec fn spec_config(&self) -> StreamConfig {
        self.config
    }

    pub fn config(&self) -> (config: StreamConfig)
        ensures
            config == self.spec_config(),
    {
        self.config
    }

    /// The number of channels.
    pub fn len(&self) -> (len: usize)
        ensures
            len == self.channels().len(),
    {
        self.channels.len()
    }

    /// Gives up the channels, each to be run by itself.
    pub fn into_channels(self) -> (channels: Vec<Channel<S>>)
        ensures
            channels@ == self.channels(),
    {
        self.channels
    }
}

/// Makes playbacks from descriptions.
pub struct PlaybackBuilder {}

impl PlaybackBuilder {
    /// Builds the playback that `mixer` describes, for a stream of `config`,
    /// from the readers of its clips: `readers` holds one list for every
    /// channel, and in it one reader for every clip.
    ///
    /// Every channel gets its clips in the order of the description, each
    /// with its reader and a copy of its description, and has not played
    /// yet.
    pub fn new<S: Source>(
        mixer: &MixerModel,
        readers: Vec<Vec<SourceReader<S>>>,
        config: StreamConfig,
    ) -> (built: Result<Playback<S>, BuildError>)
        ensures
            readers.len() != mixer.channels.len() ==> built == Err::<Playback<S>, BuildError>(
                BuildError::ChannelCount,
            ),
            readers.len() == mixer.channels.len() && !covers(mixer, readers@) ==> built is Err
                && built->Err_0 is ClipCount && clip_fault(
                mixer,
                readers@,
                built->Err_0->ClipCount_0 as int,
            ),
            covers(mixer, readers@) ==> built is Ok && playback_built(
                built->Ok_0,
                mixer,
                readers@,
                config,
            ),
    {
        if readers.len() != mixer.channels.len() {
            return Err(BuildError::ChannelCount);
        }
        let mut checked: usize = 0;
        while checked < readers.len()
            invariant
                checked <= readers.len(),
                readers.len() == mixer.channels.len(),
                clips_covered(mixer, readers@, checked as int),
            decreases readers.len() - checked,
        {
            if readers[checked].len() != mixer.channels[checked].clips.len() {
                return Err(BuildError::ClipCount(checked));
            }
            checked += 1;
        }
        let ghost brought = readers@;
        let mut readers = readers;
        let mut channels: Vec<Channel<S>> = Vec::new();
        let mut at: usize = readers.len();
        while at > 0
            invariant
                at <= brought.len(),
                brought.len() == mixer.channels.len(),
                covers(mixer, brought),
                readers@ == brought.take(at as int),
                channels.len() == brought.len() - at,
                forall|channel: int|
                    at <= channel < brought.len() ==> channel_built(
                        #[trigger] channels@[channel - at],
                        mixer.channels[channel],
                        brought[channel]@,
                    ),
            decreases at,
        {
            at -= 1;
            let mut clip_readers = readers.pop().unwrap();
            let model = &mixer.channels[at];
            let ghost these = clip_readers@;
            assert(these == brought[at as int]@);
            let mut clips: Vec<PlayableClip<S>> = Vec::new();
            let mut clip: usize = clip_readers.len();
            while clip > 0
                invariant
                    clip <= these.len(),
                    these.len() == model.clips.len(),
                    clip_readers@ == these.take(clip as int),
                    clips.len() == these.len() - clip,
                    forall|c: int|
                        clip <= c < these.len() ==> (#[trigger] clips@[c - clip]).reader == these[c]
                            && clips@[c - clip].clip_model == model.clips[c],
                decreases clip,
            {
                clip -= 1;
                let reader = clip_readers.pop().unwrap();
                let ghost before = clips@;
                clips.insert(0, PlayableClip { reader, clip_model: model.clips[clip].clone() });
                assert forall|c: int| clip <= c < these.len() implies (#[trigger] clips@[c
                    - clip]).reader == these[c] && clips@[c - clip].clip_model
                    == model.clips[c] by {
                    if c > clip {
                        assert(clips@[c - clip] == before[c - (clip + 1)]);
                    }
                }
                assert(clip_readers@ == these.take(clip as int));
            }
            assert forall|c: int| 0 <= c < these.len() implies (#[trigger] clips@[c]).reader
                == these[c] && clips@[c].clip_model == model.clips[c] by {
                assert(clips@[c - clip].reader == these[c]);
            }
            let channel = Channel::new(clips);
            assert(channel_built(channel, mixer.channels[at as int], brought[at as int]@));
            let ghost before = channels@;
            channels.insert(0, channel);
            assert forall|c: int| at <= c < brought.len() implies channel_built(
                #[trigger] channels@[c - at],
                mixer.channels[c],
                brought[c]@,
            ) by {
                if c > at {
                    assert(channels@[c - at] == before[c - (at + 1)]);
                } else {
                    assert(channels@[c - at] == channel);
                }
            }
            assert(readers@ == brought.take(at as int));
        }
        let playback = Playback { channels, config };
        assert forall|channel: int| 0 <= channel < mixer.channels.len() implies channel_built(
            #[trigger] playback.channels()[channel],
            mixer.channels[channel],
            brought[channel]@,
        ) by {
            assert(playback.channels()[channel] == channels@[channel - at]);
        }
        Ok(playback)
    }
}

} // verus!
