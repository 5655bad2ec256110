//! Reading one decoded clip in the layout of the output device.
//!
//! A reader hands out the samples of a resampled chunk in the order of the
//! output channels. When the chunk is used up it pulls the next stretch of
//! the clip from its source and stages it, padded with silence to the full
//! length that the resampler takes. Resampling itself is done by the caller,
//! who loads the result before reading on.

use crate::config::StreamConfig;
use crate::frame::{lemma_step_position, new_frame, Frame, FrameStepper, FrameView};
use crate::sample::{Sample, SILENCE};
use crate::source::Source;
use vstd::prelude::*;

verus! {

/// The frames that one resampled chunk holds.
pub const RESAMPLE_CHUNK_FRAMES: usize = 2048;

/// The parts in which a chunk is resampled.
pub const RESAMPLE_SUB_CHUNKS: usize = 2;

/// The samples of a chunk, one sequence per channel.
pub open spec fn chunk_view(chunk: &Vec<Vec<Sample>>) -> Seq<Seq<Sample>> {
    Seq::new(chunk.len() as nat, |channel: int| chunk@[channel]@)
}

/// The sample of `channel` in `frame` of an interleaved stretch, or silence
/// where the stretch has ended before it.
pub open spec fn padded_sample(pulled: Seq<Sample>, channels: nat, channel: int, frame: int) -> Sample {
    if frame * channels + channel < pulled.len() {
        pulled[frame * channels + channel]
    } else {
        SILENCE
    }
}

/// An interleaved stretch taken apart into `channels` channels of `frames`
/// samples each, with silence after its end.
pub open spec fn deinterleave(pulled: Seq<Sample>, channels: nat, frames: nat) -> Seq<Seq<Sample>> {
    Seq::new(
        channels,
        |channel: int| Seq::new(frames, |frame: int| padded_sample(pulled, channels, channel, frame)),
    )
}

/// Whether every channel of `chunk` has as many samples as the first.
pub open spec fn uniform(chunk: Seq<Seq<Sample>>) -> bool {
    forall|channel: int| 0 <= channel < chunk.len() ==> (#[trigger] chunk[channel]).len() == chunk[0].len()
}

/// Takes an interleaved stretch apart into `channels` channels of `frames`
/// samples each. Where the stretch ends early, silence follows.
pub fn deinterleave_padded(pulled: &Vec<Sample>, channels: usize, frames: usize) -> (chunk: Vec<
    Vec<Sample>,
>)
    ensures
        chunk_view(&chunk) == deinterleave(pulled@, channels as nat, frames as nat),
{
    let mut chunk: Vec<Vec<Sample>> = Vec::new();
    let mut channel: usize = 0;
    while channel < channels
        invariant
            channel <= channels,
            chunk.len() == channel,
            forall|c: int|
                0 <= c < channel ==> (#[trigger] chunk@[c])@ == Seq::new(
                    frames as nat,
                    |frame: int| padded_sample(pulled@, channels as nat, c, frame),
                ),
        decreases channels - channel,
    {
        let mut samples: Vec<Sample> = Vec::new();
        let mut frame: usize = 0;
        let mut at: usize = channel;
        let mut beyond: bool = false;
        while frame < frames
            invariant
                frame <= frames,
                channel < channels,
                samples.len() == frame,
                !beyond ==> at == frame * channels + channel,
                beyond ==> frame * channels + channel > usize::MAX,
                forall|f: int|
                    0 <= f < frame ==> #[trigger] samples@[f] == padded_sample(
                        pulled@,
                        channels as nat,
                        channel as int,
                        f,
                    ),
            decreases frames - frame,
        {
            let sample = if !beyond && at < pulled.len() {
                pulled[at]
            } else {
                SILENCE
            };
            proof {
                let position = frame as int * channels as nat + channel as int;
                assert(position == frame * channels + channel);
                if beyond {
                    assert(position > pulled.len());
                    assert(sample == SILENCE);
                } else {
                    assert(position == at);
                }
                assert(sample == padded_sample(pulled@, channels as nat, channel as int, frame as int));
            }
            samples.push(sample);
            assert((frame + 1) * channels + channel == frame * channels + channel + channels)
                by (nonlinear_arith);
            if !beyond {
                match at.checked_add(channels) {
                    Some(following) => {
                        at = following;
                    },
                    None => {
                        beyond = true;
                    },
                }
            }
            frame += 1;
        }
        assert(samples@ =~= Seq::new(
            frames as nat,
            |frame: int| padded_sample(pulled@, channels as nat, channel as int, frame),
        ));
        chunk.push(samples);
        channel += 1;
    }
    assert(chunk_view(&chunk) =~= deinterleave(pulled@, channels as nat, frames as nat));
    chunk
}

/// Pulls up to `frames` frames of `channels` scalars each from `source`, and
/// stops at the first scalar that the source does not have.
pub fn pull_frames<S: Source>(source: &mut S, channels: usize, frames: usize) -> (pulled: Vec<
    Sample,
>)
    ensures
        pulled.len() <= frames * channels,
{
    let mut pulled: Vec<Sample> = Vec::new();
    let mut frame: usize = 0;
    while frame < frames
        invariant
            frame <= frames,
            pulled.len() == frame * channels,
        decreases frames - frame,
    {
        let mut channel: usize = 0;
        while channel < channels
            invariant
                frame < frames,
                channel <= channels,
                pulled.len() == frame * channels + channel,
            decreases channels - channel,
        {
            assert(frame * channels + channels <= frames * channels) by (nonlinear_arith)
                requires
                    frame < frames,
            ;
            match source.next() {
                Some(sample) => {
                    pulled.push(sample);
                },
                None => {
                    return pulled;
                },
            }
            channel += 1;
        }
        assert((frame + 1) * channels == frame * channels + channels) by (nonlinear_arith);
        frame += 1;
    }
    pulled
}

/// Why no reader can be made for a clip.
#[derive(Clone, Copy, Debug, PartialEq, Eq, Structural)]
pub enum ReaderError {
    /// The clip has no channels.
    NoChannels,
    /// The clip has more channels than the output. Folding channels
    /// together is not done.
    TooManyChannels,
}

/// What a reader has for its caller.
#[derive(Clone, Copy, Debug, PartialEq, Eq, Structural)]
pub enum ReadStep {
    /// The next sample of the output.
    Sample(Sample),
    /// The next stretch of the clip is staged. It has to be resampled and
    /// loaded before the reader hands out another sample.
    Resample,
    /// The clip has ended and everything has been read.
    End,
}

/// What a reader is, mathematically.
pub struct ReaderView {
    pub source_channels: nat,
    pub target_channels: nat,
    /// The resampled chunk that is being read, one sequence per channel.
    pub chunk: Seq<Seq<Sample>>,
    /// The stretch of the clip that waits to be resampled.
    pub staged: Seq<Seq<Sample>>,
    /// The reads from the chunk so far.
    pub advanced: nat,
    /// The frames that the resampler takes next.
    pub input_frames: nat,
    /// Whether a staged stretch waits for its resampled chunk.
    pub awaiting: bool,
}

impl ReaderView {
    /// A reader that has not read anything yet.
    pub open spec fn fresh(source_channels: nat, target_channels: nat, input_frames: nat) -> ReaderView {
        ReaderView {
            source_channels,
            target_channels,
            chunk: Seq::empty(),
            staged: Seq::empty(),
            advanced: 0,
            input_frames,
            awaiting: false,
        }
    }

    /// The position in the chunk.
    pub open spec fn frame(self) -> FrameView {
        FrameView { source: self.source_channels, target: self.target_channels, advanced: self.advanced }
    }

    /// The frames of the chunk.
    pub open spec fn frames(self) -> nat {
        if self.chunk.len() == 0 {
            0
        } else {
            self.chunk[0].len()
        }
    }

    /// Whether the position has left the chunk.
    pub open spec fn run_out(self) -> bool {
        self.frame().sample_index() >= self.frames()
    }

    /// Whether the position is in the last frame of the chunk.
    pub open spec fn is_last_sample(self) -> bool {
        self.frames() == self.frame().sample_index() + 1
    }

    /// Whether the reads so far do not make up whole output frames.
    pub open spec fn could_be_last_sample(self) -> bool {
        self.advanced % self.target_channels != 0
    }

    /// Whether the next read calls for a new chunk.
    pub open spec fn at_chunk_end(self) -> bool {
        self.run_out() || (self.is_last_sample() && self.could_be_last_sample())
    }

    /// The sample at the position.
    pub open spec fn current(self) -> Sample {
        self.chunk[self.frame().channel_index() as int][self.frame().sample_index() as int]
    }

    /// The reader after its sample has been read.
    pub open spec fn advance(self) -> ReaderView {
        ReaderView { advanced: self.advanced + 1, ..self }
    }

    /// The whole frames that an interleaved stretch holds.
    pub open spec fn real_frames(self, pulled: Seq<Sample>) -> nat {
        pulled.len() / self.source_channels
    }

    /// The reader after `pulled` has come from the source: with a whole
    /// frame in it, the stretch is staged at full length; without one,
    /// nothing changes.
    pub open spec fn stage(self, pulled: Seq<Sample>) -> ReaderView {
        if self.real_frames(pulled) == 0 {
            self
        } else {
            ReaderView {
                staged: deinterleave(pulled, self.source_channels, self.input_frames),
                awaiting: true,
                ..self
            }
        }
    }

    /// Whether a refill that pulls `pulled` from the source reports `whole`
    /// frames and leaves the reader as `after`. No more is pulled than the
    /// resampler takes.
    pub open spec fn refills(self, pulled: Seq<Sample>, whole: nat, after: ReaderView) -> bool {
        &&& pulled.len() <= self.input_frames * self.source_channels
        &&& whole == self.real_frames(pulled)
        &&& after == self.stage(pulled)
    }

    /// Whether one call for the next sample can answer `step` and leave the
    /// reader as `after`.
    ///
    /// While a staged stretch waits, the answer is to resample it. Within a
    /// chunk the answer is the sample at the position, and the position
    /// moves on. At the end of a chunk a stretch is pulled from the source:
    /// with a whole frame in it, it is staged and has to be resampled; with
    /// none, the clip has ended.
    pub open spec fn yields(self, step: ReadStep, after: ReaderView) -> bool {
        if self.awaiting {
            step == ReadStep::Resample && after == self
        } else if !self.at_chunk_end() {
            step == ReadStep::Sample(self.current()) && after == self.advance()
        } else {
            exists|pulled: Seq<Sample>, whole: nat| #[trigger]
                self.refills(pulled, whole, after) && step == if whole == 0 {
                    ReadStep::End
                } else {
                    ReadStep::Resample
                }
        }
    }

    /// Whether `chunk` can be read by this reader: one channel per decoded
    /// channel, all of one length, and no more reads in it than can be
    /// counted.
    pub open spec fn accepts(self, chunk: Seq<Seq<Sample>>) -> bool {
        &&& chunk.len() == self.source_channels
        &&& uniform(chunk)
        &&& chunk.len() > 0 ==> chunk[0].len() * self.target_channels <= usize::MAX
    }

    /// The reader after the resampler has answered: a chunk that the reader
    /// accepts replaces the old one, anything else leaves the old one to be
    /// read again. Either way the staged stretch is gone and reading starts
    /// over.
    pub open spec fn load(self, chunk: Option<Seq<Seq<Sample>>>, input_frames: nat) -> ReaderView {
        ReaderView {
            chunk: if chunk is Some && self.accepts(chunk->0) {
                chunk->0
            } else {
                self.chunk
            },
            staged: Seq::empty(),
            advanced: 0,
            input_frames,
            awaiting: false,
            ..self
        }
    }
}

/// One clip on its way to the output: the decoded source, the stretch of it
/// that is staged for the resampler, the resampled chunk, and the position
/// in that chunk.
pub struct SourceReader<S: Source> {
    source: S,
    resample_input_buf: Vec<Vec<Sample>>,
    resample_output_buf: Vec<Vec<Sample>>,
    target_channel_count: usize,
    source_channel_count: usize,
    frame: FrameStepper,
    input_frames: usize,
    awaiting: bool,
}

impl<S: Source> SourceReader<S> {
    pub closed spec fn view(&self) -> ReaderView {
        ReaderView {
            source_channels: self.source_channel_count as nat,
            target_channels: self.target_channel_count as nat,
            chunk: chunk_view(&self.resample_output_buf),
            staged: chunk_view(&self.resample_input_buf),
            advanced: self.frame.view().advanced,
            input_frames: self.input_frames as nat,
            awaiting: self.awaiting,
        }
    }

    /// What holds of every reader: it steps through a pair of channel counts
    /// that can be stepped through, and its chunk, once there is one, is one
    /// that it accepts.
    pub closed spec fn wf(&self) -> bool {
        &&& self.frame.wf()
        &&& self.frame.view() == self.view().frame()
        &&& 0 < self.source_channel_count <= self.target_channel_count
        &&& self.view().chunk.len() == 0 || self.view().accepts(self.view().chunk)
    }

    /// A reader for a clip of `source_channel_count` channels that plays
    /// into `target_channel_count` output channels, and whose resampler
    /// first takes `input_frames` frames.
    pub fn with_channels(
        source: S,
        source_channel_count: usize,
        target_channel_count: usize,
        input_frames: usize,
    ) -> (made: Result<Self, ReaderError>)
        ensures
            source_channel_count == 0 ==> made == Err::<Self, ReaderError>(ReaderError::NoChannels),
            source_channel_count > target_channel_count ==> made == Err::<Self, ReaderError>(
                ReaderError::TooManyChannels,
            ),
            0 < source_channel_count <= target_channel_count ==> made is Ok && made->Ok_0.wf()
                && made->Ok_0.spec_source() == source && made->Ok_0@ == ReaderView::fresh(
                source_channel_count as nat,
                target_channel_count as nat,
                input_frames as nat,
            ),
    {
        if source_channel_count == 0 {
            return Err(ReaderError::NoChannels);
        }
        if source_channel_count > target_channel_count {
            return Err(ReaderError::TooManyChannels);
        }
        let reader = SourceReader {
            frame: new_frame(source_channel_count, target_channel_count),
            source,
            resample_input_buf: Vec::new(),
            resample_output_buf: Vec::new(),
            target_channel_count,
            source_channel_count,
            input_frames,
            awaiting: false,
        };
        assert(reader@.chunk =~= Seq::empty());
        assert(reader@.staged =~= Seq::empty());
        Ok(reader)
    }

    /// A reader for `source` that plays into the channels of `config`, and
    /// whose resampler first takes `input_frames` frames. The clip's own
    /// channel count is asked of the source.
    pub fn new(source: S, config: &StreamConfig, input_frames: usize) -> (made: Result<
        Self,
        ReaderError,
    >)
        ensures
            made matches Ok(reader) ==> reader.wf() && reader.spec_source() == source && 0
                < reader@.source_channels <= config.channels && reader@ == ReaderView::fresh(
                reader@.source_channels,
                config.channels as nat,
                input_frames as nat,
            ),
            config.channels == 0 ==> made is Err,
    {
        let source_channel_count = source.channels();
        Self::with_channels(source, source_channel_count, config.channels as usize, input_frames)
    }

    /// A reader has at least one channel and no more than its output, and
    /// its chunk, once it has one, is one that it accepts.
    pub proof fn lemma_wf(&self)
        requires
            self.wf(),
        ensures
            0 < self@.source_channels <= self@.target_channels,
            self@.chunk.len() == 0 || self@.accepts(self@.chunk),
    {
    }

    /// The channels of the clip.
    pub fn source_channel_count(&self) -> (count: usize)
        ensures
            count == self@.source_channels,
    {
        self.source_channel_count
    }

    /// The channels of the output.
    pub fn target_channel_count(&self) -> (count: usize)
        ensures
            count == self@.target_channels,
    {
        self.target_channel_count
    }

    /// The frames that the resampler takes next.
    pub fn input_frames(&self) -> (frames: usize)
        ensures
            frames == self@.input_frames,
    {
        self.input_frames
    }

    /// The decoded clip.
    pub closed spec fn spec_source(&self) -> S {
        self.source
    }

    /// The decoded clip.
    pub fn source(&self) -> (source: &S)
        ensures
            *source == self.spec_source(),
    {
        &self.source
    }

    /// The stretch of the clip that waits to be resampled.
    pub fn pending_input(&self) -> (staged: &Vec<Vec<Sample>>)
        ensures
            chunk_view(staged) == self@.staged,
    {
        &self.resample_input_buf
    }

    /// Whether the next read calls for a new chunk.
    pub fn needs_refill(&self) -> (needed: bool)
        requires
            self.wf(),
        ensures
            needed == self@.at_chunk_end(),
    {
        let sample_index = self.frame.current_sample_index();
        let frames = if self.resample_output_buf.len() == 0 {
            0
        } else {
            self.resample_output_buf[0].len()
        };
        if sample_index >= frames {
            true
        } else {
            let is_last_sample = frames == sample_index + 1;
            let could_be_last_sample = self.frame.samples_advanced() % self.target_channel_count
                != 0;
            is_last_sample && could_be_last_sample
        }
    }

    /// Stages a stretch that has come from the source, and says how many
    /// whole frames it holds. With none, nothing is staged. Otherwise the
    /// stretch waits for the resampler, one sequence per channel, each as
    /// long as the resampler takes, with silence after the end of the
    /// stretch.
    pub fn stage(&mut self, pulled: &Vec<Sample>) -> (whole: usize)
        requires
            old(self).wf(),
        ensures
            final(self).wf(),
            whole == old(self)@.real_frames(pulled@),
            final(self)@ == old(self)@.stage(pulled@),
    {
        let whole = pulled.len() / self.source_channel_count;
        if whole == 0 {
            return 0;
        }
        self.resample_input_buf = deinterleave_padded(
            pulled,
            self.source_channel_count,
            self.input_frames,
        );
        self.awaiting = true;
        whole
    }

    /// Pulls the next stretch of the clip from the source, as many frames as
    /// the resampler takes or as many as are left, stages it, and says how
    /// many whole frames were pulled. None means that the clip has ended.
    pub fn refil(&mut self) -> (whole: usize)
        requires
            old(self).wf(),
        ensures
            final(self).wf(),
            whole <= old(self)@.input_frames,
            exists|pulled: Seq<Sample>| #[trigger]
                old(self)@.refills(pulled, whole as nat, final(self)@),
    {
        let pulled = pull_frames(&mut self.source, self.source_channel_count, self.input_frames);
        proof {
            lemma_real_frames_bound(
                pulled@.len(),
                self.source_channel_count as nat,
                self.input_frames as nat,
            );
        }
        let whole = self.stage(&pulled);
        assert(old(self)@.refills(pulled@, whole as nat, self@));
        whole
    }

    /// The next sample of the output, or what stands in its way.
    ///
    /// Within a chunk this is the sample at the position, and the position
    /// moves on. At the end of a chunk the next stretch of the clip is
    /// pulled and staged, and the caller is asked to resample it; if the
    /// clip has nothing left, this is the end. While a staged stretch waits,
    /// nothing is read.
    pub fn next(&mut self) -> (step: ReadStep)
        requires
            old(self).wf(),
        ensures
            final(self).wf(),
            old(self)@.yields(step, final(self)@),
    {
        if self.awaiting {
            return ReadStep::Resample;
        }
        if self.needs_refill() {
            let whole = self.refil();
            assert(exists|pulled: Seq<Sample>| #[trigger]
                old(self)@.refills(pulled, whole as nat, self@));
            if whole == 0 {
                ReadStep::End
            } else {
                ReadStep::Resample
            }
        } else {
            let channel = self.frame.current_channel_index();
            let index = self.frame.current_sample_index();
            proof {
                lemma_position_in_chunk(self@);
            }
            let sample = self.resample_output_buf[channel][index];
            self.frame.advance();
            ReadStep::Sample(sample)
        }
    }

    /// Takes the resampler's answer for the staged stretch, and the frames
    /// that the resampler takes next.
    ///
    /// A chunk that the reader accepts becomes the chunk that is read. With
    /// no chunk, or one of the wrong shape, the old chunk is read once more.
    /// Either way the staged stretch is dropped and reading starts at the
    /// beginning of the chunk.
    pub fn load(&mut self, chunk: Option<Vec<Vec<Sample>>>, input_frames: usize) -> (accepted: bool)
        requires
            old(self).wf(),
        ensures
            final(self).wf(),
            accepted <==> chunk is Some && old(self)@.accepts(chunk_view(&chunk->0)),
            final(self)@ == old(self)@.load(
                match chunk {
                    Some(chunk) => Some(chunk_view(&chunk)),
                    None => None,
                },
                input_frames as nat,
            ),
    {
        let accepted = match chunk {
            Some(chunk) => {
                if self.fits(&chunk) {
                    self.resample_output_buf = chunk;
                    true
                } else {
                    false
                }
            },
            None => false,
        };
        self.resample_input_buf = Vec::new();
        self.frame.reset();
        self.input_frames = input_frames;
        self.awaiting = false;
        assert(self@.staged =~= Seq::empty());
        accepted
    }

    /// Whether `chunk` can be read by this reader.
    pub fn fits(&self, chunk: &Vec<Vec<Sample>>) -> (fitting: bool)
        requires
            self.wf(),
        ensures
            fitting == self@.accepts(chunk_view(chunk)),
    {
        if chunk.len() != self.source_channel_count {
            return false;
        }
        let frames = chunk[0].len();
        if frames > usize::MAX / self.target_channel_count {
            proof {
                lemma_too_many_reads(frames as nat, self.target_channel_count as nat);
            }
            return false;
        }
        proof {
            lemma_countable_reads(frames as nat, self.target_channel_count as nat);
        }
        let mut channel: usize = 1;
        while channel < chunk.len()
            invariant
                1 <= channel <= chunk.len(),
                frames == chunk@[0]@.len(),
                forall|c: int|
                    0 <= c < channel ==> (#[trigger] chunk_view(chunk)[c]).len() == frames,
            decreases chunk.len() - channel,
        {
            if chunk[channel].len() != frames {
                assert(chunk_view(chunk)[channel as int].len() != chunk_view(chunk)[0].len());
                return false;
            }
            channel += 1;
        }
        true
    }
}

/// A stretch of at most `frames` frames holds at most `frames` whole frames.
pub proof fn lemma_real_frames_bound(len: nat, channels: nat, frames: nat)
    requires
        channels > 0,
        len <= frames * channels,
    ensures
        len / channels <= frames,
{
    assert(len / channels <= frames) by (nonlinear_arith)
        requires
            channels > 0,
            len <= frames * channels,
    ;
}

/// More frames than `usize::MAX / target` hold more reads than can be counted.
pub proof fn lemma_too_many_reads(frames: nat, target: nat)
    requires
        target > 0,
        frames > usize::MAX as int / target as int,
    ensures
        frames * target > usize::MAX,
{
    assert(frames * target > usize::MAX) by (nonlinear_arith)
        requires
            target > 0,
            frames > usize::MAX as int / target as int,
    ;
}

/// At most `usize::MAX / target` frames hold no more reads than can be counted.
pub proof fn lemma_countable_reads(frames: nat, target: nat)
    requires
        target > 0,
        frames <= usize::MAX as int / target as int,
    ensures
        frames * target <= usize::MAX,
{
    assert(frames * target <= usize::MAX) by (nonlinear_arith)
        requires
            target > 0,
            frames <= usize::MAX as int / target as int,
    ;
}

/// A position that has not left its chunk is a place in the chunk, and has
/// fewer reads behind it than the chunk holds.
pub proof fn lemma_position_in_chunk(reader: ReaderView)
    requires
        0 < reader.source_channels <= reader.target_channels,
        reader.accepts(reader.chunk),
        !reader.run_out(),
    ensures
        reader.frame().channel_index() < reader.chunk.len(),
        reader.frame().sample_index() < reader.chunk[reader.frame().channel_index() as int].len(),
        reader.advanced < reader.frames() * reader.target_channels,
{
    let k = reader.advanced as int;
    let s = reader.source_channels as int;
    let t = reader.target_channels as int;
    let frames = reader.frames() as int;
    assert(0 <= k % s < s) by (nonlinear_arith)
        requires
            s > 0,
            k >= 0,
    ;
    assert(k < frames * t) by (nonlinear_arith)
        requires
            t > 0,
            k >= 0,
            k / t < frames,
    ;
}

/// What a refill stages when the source has less than the resampler takes.
///
/// The refill reports the whole frames that came from the source. With none
/// of them the reader stays as it was, which is how a clip ends. With at
/// least one, the staged stretch is as long as the resampler takes all the
/// same: every channel holds what came from the source for it, and silence
/// from there on.
pub proof fn lemma_short_stretch_is_padded(reader: ReaderView, pulled: Seq<Sample>)
    requires
        reader.source_channels > 0,
    ensures
        pulled.len() < reader.source_channels <==> reader.real_frames(pulled) == 0,
        reader.real_frames(pulled) == 0 ==> reader.stage(pulled) == reader,
        reader.real_frames(pulled) > 0 ==> reader.stage(pulled).awaiting && reader.stage(
            pulled,
        ).staged.len() == reader.source_channels,
        forall|channel: int|
            #![trigger reader.stage(pulled).staged[channel]]
            reader.real_frames(pulled) > 0 && 0 <= channel < reader.source_channels
                ==> reader.stage(pulled).staged[channel].len() == reader.input_frames,
        forall|channel: int, frame: int|
            #![trigger reader.stage(pulled).staged[channel][frame]]
            reader.real_frames(pulled) > 0 && 0 <= channel < reader.source_channels && 0 <= frame
                < reader.input_frames ==> reader.stage(pulled).staged[channel][frame] == (if frame
                * reader.source_channels + channel < pulled.len() {
                pulled[frame * reader.source_channels + channel]
            } else {
                SILENCE
            }),
        forall|channel: int, frame: int|
            #![trigger reader.stage(pulled).staged[channel][frame]]
            reader.real_frames(pulled) > 0 && 0 <= channel < reader.source_channels
                && reader.real_frames(pulled) < frame < reader.input_frames ==> reader.stage(
                pulled,
            ).staged[channel][frame] == SILENCE,
{
    let channels = reader.source_channels as int;
    let len = pulled.len() as int;
    let whole = len / channels;
    assert(len < channels <==> whole == 0) by (nonlinear_arith)
        requires
            channels > 0,
            len >= 0,
            whole == len / channels,
    ;
    assert forall|channel: int, frame: int|
        #![trigger reader.stage(pulled).staged[channel][frame]]
        reader.real_frames(pulled) > 0 && 0 <= channel < reader.source_channels
            && reader.real_frames(pulled) < frame < reader.input_frames implies reader.stage(
        pulled,
    ).staged[channel][frame] == SILENCE by {
        assert(frame * channels + channel >= len) by (nonlinear_arith)
            requires
                channels > 0,
                len >= 0,
                whole == len / channels,
                whole < frame,
                0 <= channel,
        ;
    }
}

/// A new chunk is asked for before the position can leave the old one.
///
/// With two or more output channels, a read that does not call for a new
/// chunk leaves the position inside the chunk. So every sample that such a
/// reader hands out is a sample of its chunk.
pub proof fn lemma_refill_comes_before_the_end(reader: ReaderView)
    requires
        reader.target_channels >= 2,
        !reader.at_chunk_end(),
    ensures
        !reader.advance().run_out(),
{
    lemma_step_position(reader.target_channels, reader.advanced);
}

} // verus!
