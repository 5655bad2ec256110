//! A channel of the playback: its clips, and the stream of samples that it
//! feeds the mixer.
//!
//! A channel plays its first clip. When that clip has ended the channel
//! goes on with silence and never stops, so that the mixer, which takes one
//! sample from every channel for every tick, is never kept waiting.

use crate::builder::PlayableClip;
use crate::queue::deliver;
use crate::sample::{Sample, SILENCE};
use crate::source::Source;
use crate::source_reader::{ReadStep, ReaderView, SourceReader};
use crossbeam::channel::Sender;
use vstd::prelude::*;

verus! {

/// What a channel has for its caller.
#[derive(Clone, Copy, Debug, PartialEq, Eq, Structural)]
pub enum ChannelStep {
    /// The next sample of the clip.
    Sample(Sample),
    /// The clip has ended: silence.
    Silence,
    /// The staged stretch of the clip has to be resampled and loaded.
    Resample,
    /// The channel has no clip and produces nothing.
    Idle,
}

/// What has become of one sample on its way to the mixer.
#[derive(Clone, Copy, Debug, PartialEq, Eq, Structural)]
pub enum Pumped {
    /// The mixer's queue has taken it.
    Sent,
    /// A sample of the clip was lost: the queue is closed.
    Dropped,
    /// Silence could not be sent: the queue is closed, and the channel has
    /// nothing left to do.
    Disconnected,
    /// Nothing was sent. The staged stretch has to be resampled first.
    Resample,
    /// Nothing was sent. The channel has no clip.
    Idle,
}

impl ChannelStep {
    /// What has become of this step, given whether the queue took its
    /// sample.
    pub open spec fn pumped(self, delivered: bool) -> Pumped {
        match self {
            ChannelStep::Sample(_) => if delivered {
                Pumped::Sent
            } else {
                Pumped::Dropped
            },
            ChannelStep::Silence => if delivered {
                Pumped::Sent
            } else {
                Pumped::Disconnected
            },
            ChannelStep::Resample => Pumped::Resample,
            ChannelStep::Idle => Pumped::Idle,
        }
    }
}

/// The clips of one channel, in the order in which they were described.
pub struct Channel<S: Source> {
    clips: Vec<PlayableClip<S>>,
    finished: bool,
}

impl<S: Source> Channel<S> {
    /// The clips of the channel.
    pub closed spec fn clips(&self) -> Seq<PlayableClip<S>> {
        self.clips@
    }

    /// Whether the clip that the channel plays has ended.
    pub closed spec fn finished(&self) -> bool {
        self.finished
    }

    /// Whether the channel can play: its first clip, if it has one, has a
    /// well-formed reader.
    pub open spec fn wf(&self) -> bool {
        self.clips().len() > 0 ==> self.clips()[0].reader.wf()
    }

    /// A channel that has not played yet.
    pub fn new(clips: Vec<PlayableClip<S>>) -> (channel: Self)
        ensures
            channel.clips() == clips@,
            !channel.finished(),
    {
        Channel { clips, finished: false }
    }

    /// What the channel answers when its reader has answered `read` and has
    /// become `after`, and how that leaves the channel: the samples of the
    /// clip as they come, and silence from its end on.
    pub open spec fn follows(
        &self,
        read: ReadStep,
        after: ReaderView,
        step: ChannelStep,
        then: &Self,
    ) -> bool {
        &&& then.clips().len() == self.clips().len()
        &&& then.clips()[0].reader@ == after
        &&& then.clips()[0].clip_model == self.clips()[0].clip_model
        &&& forall|at: int| 1 <= at < self.clips().len() ==> then.clips()[at] == self.clips()[at]
        &&& then.finished() == (read == ReadStep::End)
        &&& step == match read {
            ReadStep::Sample(sample) => ChannelStep::Sample(sample),
            ReadStep::Resample => ChannelStep::Resample,
            ReadStep::End => ChannelStep::Silence,
        }
    }

    /// Whether one step of the channel can answer `step` and leave the
    /// channel as `then`.
    ///
    /// Without a clip the channel is idle. Once its clip has ended it
    /// answers silence, and nothing changes any more. Before that it
    /// answers what its first clip's reader does, with silence for the end
    /// of the clip.
    pub open spec fn polls(&self, step: ChannelStep, then: &Self) -> bool {
        if self.clips().len() == 0 {
            step == ChannelStep::Idle && then == self
        } else if self.finished() {
            step == ChannelStep::Silence && then == self
        } else {
            exists|read: ReadStep, after: ReaderView|
                self.clips()[0].reader@.yields(read, after) && #[trigger] self.follows(
                    read,
                    after,
                    step,
                    then,
                )
        }
    }

    /// The next step of the channel.
    pub fn poll(&mut self) -> (step: ChannelStep)
        requires
            old(self).wf(),
        ensures
            final(self).wf(),
            old(self).polls(step, final(self)),
    {
        if self.clips.len() == 0 {
            return ChannelStep::Idle;
        }
        if self.finished {
            return ChannelStep::Silence;
        }
        let read = self.clips[0].reader.next();
        let step = match read {
            ReadStep::Sample(sample) => ChannelStep::Sample(sample),
            ReadStep::Resample => ChannelStep::Resample,
            ReadStep::End => {
                self.finished = true;
                ChannelStep::Silence
            },
        };
        assert(old(self).follows(read, self.clips()[0].reader@, step, self));
        step
    }

    /// The reader of the clip that the channel plays.
    pub fn reader_mut(&mut self) -> (reader: &mut SourceReader<S>)
        requires
            old(self).clips().len() > 0,
        ensures
            *reader == old(self).clips()[0].reader,
            final(self).clips().len() == old(self).clips().len(),
            final(self).clips()[0].reader == *final(reader),
            final(self).clips()[0].clip_model == old(self).clips()[0].clip_model,
            forall|at: int|
                1 <= at < old(self).clips().len() ==> final(self).clips()[at] == old(self).clips()[at],
            final(self).finished() == old(self).finished(),
    {
        &mut self.clips[0].reader
    }

    /// Takes the next step of the channel and sends its sample, if it has
    /// one, to the mixer.
    pub fn pump(&mut self, mixer: &Sender<Sample>) -> (pumped: Pumped)
        requires
            old(self).wf(),
        ensures
            final(self).wf(),
            exists|step: ChannelStep, delivered: bool|
                old(self).polls(step, final(self)) && pumped == #[trigger] step.pumped(delivered),
    {
        let step = self.poll();
        Self::send_step(step, mixer)
    }

    /// Sends the sample of a step, if it has one, to the mixer.
    pub fn send_step(step: ChannelStep, mixer: &Sender<Sample>) -> (pumped: Pumped)
        ensures
            exists|delivered: bool| pumped == #[trigger] step.pumped(delivered),
    {
        match step {
            ChannelStep::Sample(sample) => {
                let delivered = deliver(mixer, sample);
                assert(step.pumped(delivered) == if delivered {
                    Pumped::Sent
                } else {
                    Pumped::Dropped
                });
                if delivered {
                    Pumped::Sent
                } else {
                    Pumped::Dropped
                }
            },
            ChannelStep::Silence => {
                let delivered = deliver(mixer, SILENCE);
                assert(step.pumped(delivered) == if delivered {
                    Pumped::Sent
                } else {
                    Pumped::Disconnected
                });
                if delivered {
                    Pumped::Sent
                } else {
                    Pumped::Disconnected
                }
            },
            ChannelStep::Resample => {
                assert(step.pumped(true) == Pumped::Resample);
                Pumped::Resample
            },
            ChannelStep::Idle => {
                assert(step.pumped(true) == Pumped::Idle);
                Pumped::Idle
            },
        }
    }
}

/// A channel with a clip always has a sample or asks for resampling: it is
/// never idle. And once its clip has ended it answers silence and stays as
/// it is, so that it answers silence for ever.
pub proof fn lemma_silence_for_ever<S: Source>(channel: &Channel<S>, step: ChannelStep, then: &Channel<S>)
    requires
        channel.clips().len() > 0,
        channel.polls(step, then),
    ensures
        step != ChannelStep::Idle,
        channel.finished() ==> step == ChannelStep::Silence && then.finished() && then.clips()
            == channel.clips(),
        step == ChannelStep::Silence ==> then.finished(),
        !channel.finished() && then.finished() ==> step == ChannelStep::Silence,
{
}

} // verus!
