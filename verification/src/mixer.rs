//! Mixing: one sample from every channel, summed and kept within full scale.

use crate::queue::receive;
use crate::sample::{clamp, Sample, FULL_SCALE};
use crossbeam::channel::Receiver;
use vstd::prelude::*;

verus! {

/// The sum of the samples that have come in for one tick. A channel that
/// has handed in nothing adds nothing.
pub open spec fn sum(received: Seq<Option<Sample>>) -> int
    decreases received.len(),
{
    if received.len() == 0 {
        0
    } else {
        sum(received.drop_last()) + match received.last() {
            Some(sample) => sample as int,
            None => 0,
        }
    }
}

/// The channels that have handed in nothing for one tick.
pub open spec fn missing(received: Seq<Option<Sample>>) -> nat
    decreases received.len(),
{
    if received.len() == 0 {
        0
    } else {
        missing(received.drop_last()) + if received.last() is None {
            1nat
        } else {
            0nat
        }
    }
}

/// The outcome of one tick of the mixer.
#[derive(Clone, Copy, Debug, PartialEq, Eq, Structural)]
pub struct Tick {
    /// The mixed sample for the device.
    pub mixed: Sample,
    /// The channels whose queue was closed.
    pub closed_channels: usize,
}

/// Sums the channels of a playback, sample by sample.
pub struct Mixer {}

impl Mixer {
    /// The outcome of a tick for which `received` has come in.
    pub open spec fn spec_mix(received: Seq<Option<Sample>>) -> Tick {
        Tick { mixed: clamp(sum(received)) as Sample, closed_channels: missing(received) as usize }
    }

    /// Mixes what has come in from the channels for one tick: the sum of the
    /// samples, held to full scale on either side.
    pub fn mix(received: &Vec<Option<Sample>>) -> (tick: Tick)
        ensures
            tick == Self::spec_mix(received@),
            tick.mixed == clamp(sum(received@)),
            tick.closed_channels == missing(received@),
            -FULL_SCALE <= tick.mixed <= FULL_SCALE,
    {
        let mut total: i128 = 0;
        let mut closed: usize = 0;
        let mut at: usize = 0;
        while at < received.len()
            invariant
                at <= received.len(),
                total == sum(received@.take(at as int)),
                closed == missing(received@.take(at as int)),
                -32768 * at <= total <= 32767 * at,
                closed <= at,
            decreases received.len() - at,
        {
            assert(received@.take(at + 1).drop_last() =~= received@.take(at as int));
            match received[at] {
                Some(sample) => {
                    total = total + sample as i128;
                },
                None => {
                    closed = closed + 1;
                },
            }
            at += 1;
        }
        assert(received@.take(at as int) =~= received@);
        let mixed: Sample = if total > FULL_SCALE as i128 {
            FULL_SCALE
        } else if total < -(FULL_SCALE as i128) {
            -FULL_SCALE
        } else {
            total as Sample
        };
        Tick { mixed, closed_channels: closed }
    }

    /// One tick of the mixer: takes one sample from the queue of every
    /// channel, in their order, and mixes them. A channel whose queue is
    /// closed adds nothing and is counted.
    pub fn tick(channels: &Vec<Receiver<Sample>>) -> (tick: Tick)
        ensures
            -FULL_SCALE <= tick.mixed <= FULL_SCALE,
            tick.closed_channels <= channels.len(),
            exists|received: Seq<Option<Sample>>|
                received.len() == channels.len() && tick == #[trigger] Self::spec_mix(received),
    {
        let mut received: Vec<Option<Sample>> = Vec::new();
        let mut at: usize = 0;
        while at < channels.len()
            invariant
                at <= channels.len(),
                received.len() == at,
            decreases channels.len() - at,
        {
            received.push(receive(&channels[at]));
            at += 1;
        }
        proof {
            lemma_missing_bound(received@);
        }
        Self::mix(&received)
    }
}

/// A mixed sample is within full scale, whatever has come in: no number of
/// loud channels takes it out of the range from -1.0 to 1.0.
pub proof fn lemma_mix_within_full_scale(received: Seq<Option<Sample>>)
    ensures
        -FULL_SCALE <= Mixer::spec_mix(received).mixed <= FULL_SCALE,
        -FULL_SCALE <= sum(received) <= FULL_SCALE ==> Mixer::spec_mix(received).mixed == sum(
            received,
        ),
        sum(received) > FULL_SCALE ==> Mixer::spec_mix(received).mixed == FULL_SCALE,
        sum(received) < -FULL_SCALE ==> Mixer::spec_mix(received).mixed == -FULL_SCALE,
{
}

/// No more channels are missing than there are.
pub proof fn lemma_missing_bound(received: Seq<Option<Sample>>)
    ensures
        missing(received) <= received.len(),
    decreases received.len(),
{
    if received.len() > 0 {
        lemma_missing_bound(received.drop_last());
    }
}

} // verus!
