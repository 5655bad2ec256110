//! The engine: its lifecycle, the sources registered with it, and what it
//! feeds the device.

use crate::queue::receive;
use crate::sample::{clamp, Sample, FULL_SCALE, SILENCE};
use crate::source::Source;
use crate::source_reader::SourceReader;
use crossbeam::channel::Receiver;
use vstd::prelude::*;

verus! {

/// What the engine is doing.
#[derive(Clone, Copy, Debug, PartialEq, Eq, Structural)]
pub enum EngineState {
    Idle,
    Playing,
    Paused,
}

/// What the engine can be told to do.
#[derive(Clone, Copy, Debug, PartialEq, Eq, Structural)]
pub enum EngineCommand {
    Play,
    Pause,
}

/// The state that follows `state` on `command`. Play starts an idle engine
/// and resumes a paused one, Pause halts a playing one, and every other
/// command leaves the state as it is.
pub open spec fn transition(state: EngineState, command: EngineCommand) -> EngineState {
    match (state, command) {
        (EngineState::Idle, EngineCommand::Play) => EngineState::Playing,
        (EngineState::Playing, EngineCommand::Pause) => EngineState::Paused,
        (EngineState::Paused, EngineCommand::Play) => EngineState::Playing,
        (state, _) => state,
    }
}

/// The lifecycle of the engine.
pub struct EngineStateMachine {
    state: EngineState,
}

impl EngineStateMachine {
    pub closed spec fn view(&self) -> EngineState {
        self.state
    }

    /// A machine at rest.
    pub fn new() -> (machine: Self)
        ensures
            machine@ == EngineState::Idle,
    {
        EngineStateMachine { state: EngineState::Idle }
    }

    /// The state the machine is in.
    pub fn state(&self) -> (state: EngineState)
        ensures
            state == self@,
    {
        self.state
    }

    /// Takes one command.
    pub fn next(&mut self, comm: EngineCommand)
        ensures
            final(self)@ == transition(old(self)@, comm),
    {
        self.state = match (self.state, comm) {
            (EngineState::Idle, EngineCommand::Play) => EngineState::Playing,
            (EngineState::Playing, EngineCommand::Pause) => EngineState::Paused,
            (EngineState::Paused, EngineCommand::Play) => EngineState::Playing,
            (state, _) => state,
        };
    }

    /// Takes the command to play.
    pub fn play(&mut self)
        ensures
            final(self)@ == transition(old(self)@, EngineCommand::Play),
    {
        self.next(EngineCommand::Play);
    }
}

/// The lifecycle, case by case: an idle or paused engine plays on Play, a
/// playing engine pauses on Pause, and nothing else changes the state. An
/// engine is never idle again once it has played.
pub proof fn lemma_lifecycle(state: EngineState, command: EngineCommand)
    ensures
        transition(EngineState::Idle, EngineCommand::Play) == EngineState::Playing,
        transition(EngineState::Playing, EngineCommand::Pause) == EngineState::Paused,
        transition(EngineState::Paused, EngineCommand::Play) == EngineState::Playing,
        transition(EngineState::Idle, EngineCommand::Pause) == EngineState::Idle,
        state == EngineState::Playing && command != EngineCommand::Pause ==> transition(
            state,
            command,
        ) == state,
        state == EngineState::Paused && command != EngineCommand::Play ==> transition(
            state,
            command,
        ) == state,
        transition(state, command) == EngineState::Idle ==> state == EngineState::Idle,
{
}

/// The sample that goes to the device for what has come from the mixer:
/// that sample, or silence where nothing has come.
pub open spec fn or_silence(received: Option<Sample>) -> Sample {
    match received {
        Some(sample) => sample,
        None => SILENCE,
    }
}

/// The sample that goes to the device for what has come from the mixer.
/// The device is never kept waiting on a closed queue: it gets silence.
pub fn output_sample(received: Option<Sample>) -> (sample: Sample)
    ensures
        sample == or_silence(received),
{
    match received {
        Some(sample) => sample,
        None => SILENCE,
    }
}

/// The next sample for the device, taken from the queue of mixed samples.
/// Any sample can come: what is in the queue is up to the mixer.
pub fn next_output(mixed: &Receiver<Sample>) -> (sample: Sample) {
    output_sample(receive(mixed))
}

/// The mix of what the registered sources have handed in, each sample added
/// to the mix so far and the mix held to full scale after every one. A
/// source that has ended adds nothing.
pub open spec fn running_mix(results: Seq<Option<Sample>>) -> int
    decreases results.len(),
{
    if results.len() == 0 {
        0
    } else {
        match results.last() {
            Some(sample) => clamp(running_mix(results.drop_last()) + sample),
            None => running_mix(results.drop_last()),
        }
    }
}

/// Whether every source has ended.
pub open spec fn all_ended(results: Seq<Option<Sample>>) -> bool {
    forall|at: int| 0 <= at < results.len() ==> (#[trigger] results[at]) is None
}

/// The sources that are registered with the engine.
pub struct Sources<S: Source> {
    source_readers: Vec<SourceReader<S>>,
}

impl<S: Source> Sources<S> {
    /// The number of registered sources.
    pub closed spec fn spec_len(&self) -> nat {
        self.source_readers.len() as nat
    }

    /// The reader of the source that was registered as number `at`.
    pub closed spec fn reader(&self, at: int) -> SourceReader<S> {
        self.source_readers@[at]
    }

    /// Whether every registered reader is well formed.
    pub open spec fn wf(&self) -> bool {
        forall|at: int| 0 <= at < self.spec_len() ==> (#[trigger] self.reader(at)).wf()
    }

    /// No sources.
    pub fn new() -> (sources: Sources<S>)
        ensures
            sources.spec_len() == 0,
            sources.wf(),
    {
        Sources { source_readers: Vec::new() }
    }

    /// Registers one more source, behind those that are there.
    pub fn add(&mut self, reader: SourceReader<S>)
        ensures
            final(self).spec_len() == old(self).spec_len() + 1,
            final(self).reader(old(self).spec_len() as int) == reader,
            forall|at: int|
                0 <= at < old(self).spec_len() ==> final(self).reader(at) == old(self).reader(at),
    {
        self.source_readers.push(reader);
    }

    pub fn len(&self) -> (len: usize)
        ensures
            len == self.spec_len(),
    {
        self.source_readers.len()
    }

    /// The reader of the source that was registered as number `at`, to be
    /// read from.
    pub fn reader_mut(&mut self, at: usize) -> (reader: &mut SourceReader<S>)
        requires
            at < old(self).spec_len(),
        ensures
            *reader == old(self).reader(at as int),
            final(self).spec_len() == old(self).spec_len(),
            final(self).reader(at as int) == *final(reader),
            forall|other: int|
                0 <= other < old(self).spec_len() && other != at ==> final(self).reader(other)
                    == old(self).reader(other),
    {
        &mut self.source_readers[at]
    }

    /// Mixes what the sources have handed in for one sample of output, in
    /// the order of their registration: `None` for a source that has ended.
    /// The mix is over once every one of them has ended; with no source
    /// registered there is silence.
    pub fn mix(results: &Vec<Option<Sample>>) -> (mixed: Option<Sample>)
        ensures
            mixed == if results.len() > 0 && all_ended(results@) {
                None
            } else {
                Some(running_mix(results@) as Sample)
            },
            mixed matches Some(sample) ==> -FULL_SCALE <= sample <= FULL_SCALE,
    {
        let mut samp: Sample = 0;
        let mut full_decoders: usize = results.len();
        let mut at: usize = 0;
        while at < results.len()
            invariant
                at <= results.len(),
                samp == running_mix(results@.take(at as int)),
                -FULL_SCALE <= samp <= FULL_SCALE,
                full_decoders <= results.len(),
                full_decoders + at >= results.len(),
                at > 0 ==> full_decoders > 0,
                full_decoders + at == results.len() <==> all_ended(results@.take(at as int)),
            decreases results.len() - at,
        {
            assert(results@.take(at + 1).drop_last() =~= results@.take(at as int));
            match results[at] {
                Some(sample) => {
                    let total: i32 = samp as i32 + sample as i32;
                    samp = if total > FULL_SCALE as i32 {
                        FULL_SCALE
                    } else if total < -(FULL_SCALE as i32) {
                        -FULL_SCALE
                    } else {
                        total as Sample
                    };
                    assert(!all_ended(results@.take(at + 1))) by {
                        assert(results@.take(at + 1)[at as int] is Some);
                    }
                },
                None => {
                    assert(all_ended(results@.take(at + 1)) <==> all_ended(
                        results@.take(at as int),
                    )) by {
                        if all_ended(results@.take(at as int)) {
                            assert forall|i: int| 0 <= i < at + 1 implies (#[trigger] results@.take(
                                at + 1,
                            )[i]) is None by {
                                if i < at {
                                    assert(results@.take(at as int)[i] is None);
                                }
                            }
                        }
                        if all_ended(results@.take(at + 1)) {
                            assert forall|i: int| 0 <= i < at implies (#[trigger] results@.take(
                                at as int,
                            )[i]) is None by {
                                assert(results@.take(at + 1)[i] is None);
                            }
                        }
                    }
                    full_decoders = full_decoders - 1;
                    if full_decoders == 0 {
                        assert(results@.take(at + 1) =~= results@);
                        return None;
                    }
                },
            }
            at += 1;
        }
        assert(results@.take(at as int) =~= results@);
        Some(samp)
    }
}

} // verus!
