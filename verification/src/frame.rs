//! Frame stepping: which channel and which sample of a decoded chunk is read
//! after a given number of reads, for one pair of channel counts.

use vstd::arithmetic::div_mod::{
    lemma_basic_div, lemma_fundamental_div_mod_converse, lemma_small_mod,
};
use vstd::prelude::*;

verus! {

/// What a stepper is, mathematically: the two channel counts it was made for
/// and the number of reads since it last started over.
pub struct FrameView {
    pub source: nat,
    pub target: nat,
    pub advanced: nat,
}

impl FrameView {
    /// A stepper that has not moved yet.
    pub open spec fn start(source: nat, target: nat) -> FrameView {
        FrameView { source, target, advanced: 0 }
    }

    /// The channel of the decoded chunk that is read next.
    pub open spec fn channel_index(self) -> nat {
        if self.source == 0 {
            self.advanced
        } else {
            self.advanced % self.source
        }
    }

    /// The sample of that channel that is read next.
    pub open spec fn sample_index(self) -> nat {
        if self.target == 0 {
            0
        } else {
            self.advanced / self.target
        }
    }

    /// The stepper after one more read.
    pub open spec fn step(self) -> FrameView {
        FrameView { advanced: self.advanced + 1, ..self }
    }

    /// The stepper after `k` more reads.
    pub open spec fn steps(self, k: nat) -> FrameView
        decreases k,
    {
        if k == 0 {
            self
        } else {
            self.steps((k - 1) as nat).step()
        }
    }

    /// The stepper started over, with the same channel counts.
    pub open spec fn rewind(self) -> FrameView {
        FrameView { advanced: 0, ..self }
    }
}

/// A position in a decoded chunk that moves one read at a time.
pub trait Frame {
    /// The channel counts and the reads so far.
    spec fn view(&self) -> FrameView;

    /// Whether the stepper can be used at all.
    spec fn wf(&self) -> bool;

    /// Moves on by one read.
    fn advance(&mut self)
        requires
            old(self).wf(),
            old(self).view().advanced < usize::MAX,
        ensures
            final(self).wf(),
            final(self).view() == old(self).view().step(),
    ;

    /// The sample that is read next.
    fn current_sample_index(&self) -> (index: usize)
        requires
            self.wf(),
        ensures
            index == self.view().sample_index(),
    ;

    /// The channel that is read next.
    fn current_channel_index(&self) -> (index: usize)
        requires
            self.wf(),
        ensures
            index == self.view().channel_index(),
    ;

    /// The reads since the stepper was made or last started over.
    fn samples_advanced(&self) -> (count: usize)
        requires
            self.wf(),
        ensures
            count == self.view().advanced,
    ;

    /// Starts over at the first channel of the first sample. The channel
    /// counts stay.
    fn reset(&mut self)
        requires
            old(self).wf(),
        ensures
            final(self).wf(),
            final(self).view() == old(self).view().rewind(),
    ;
}

/// Stepping for equal channel counts: the channels of one sample in turn,
/// then the next sample.
#[derive(Debug, Clone)]
pub struct OneToOneFrame {
    current_channel_index: usize,
    current_sample_index: usize,
    channel_count: usize,
    samples_advanced: usize,
}

impl OneToOneFrame {
    /// A stepper over `channel_count` channels that has not moved yet.
    pub fn new(channel_count: usize) -> (frame: OneToOneFrame)
        ensures
            frame.wf(),
            frame.view() == FrameView::start(channel_count as nat, channel_count as nat),
    {
        proof {
            lemma_start_position(channel_count as nat);
        }
        OneToOneFrame {
            channel_count,
            current_channel_index: 0,
            current_sample_index: 0,
            samples_advanced: 0,
        }
    }
}

impl Frame for OneToOneFrame {
    closed spec fn view(&self) -> FrameView {
        FrameView {
            source: self.channel_count as nat,
            target: self.channel_count as nat,
            advanced: self.samples_advanced as nat,
        }
    }

    closed spec fn wf(&self) -> bool {
        &&& self.current_channel_index == self.view().channel_index()
        &&& self.current_sample_index == self.view().sample_index()
    }

    fn reset(&mut self) {
        proof {
            lemma_start_position(self.channel_count as nat);
        }
        self.current_sample_index = 0;
        self.current_channel_index = 0;
        self.samples_advanced = 0;
    }

    fn advance(&mut self) {
        proof {
            if self.channel_count > 0 {
                lemma_step_position(self.channel_count as nat, self.samples_advanced as nat);
            }
        }
        self.samples_advanced += 1;
        if self.current_channel_index + 1 == self.channel_count {
            self.current_channel_index = 0;
            self.current_sample_index += 1;
            return;
        }
        self.current_channel_index += 1;
    }

    fn current_channel_index(&self) -> (index: usize) {
        self.current_channel_index
    }

    fn current_sample_index(&self) -> (index: usize) {
        self.current_sample_index
    }

    fn samples_advanced(&self) -> (count: usize) {
        self.samples_advanced
    }
}

/// Stepping for fewer decoded channels than output channels: every decoded
/// sample is read once for each output channel before the next one is.
pub struct UpChannel {
    source_channel_count: usize,
    target_channel_count: usize,
    samples_advanced: usize,
}

impl UpChannel {
    /// A stepper that has not moved yet. It can be used if both counts are
    /// above zero.
    pub fn new(source_channel_count: usize, target_channel_count: usize) -> (frame: Self)
        ensures
            frame.view() == FrameView::start(
                source_channel_count as nat,
                target_channel_count as nat,
            ),
            frame.wf() <==> source_channel_count > 0 && target_channel_count > 0,
    {
        UpChannel { source_channel_count, target_channel_count, samples_advanced: 0 }
    }
}

impl Frame for UpChannel {
    closed spec fn view(&self) -> FrameView {
        FrameView {
            source: self.source_channel_count as nat,
            target: self.target_channel_count as nat,
            advanced: self.samples_advanced as nat,
        }
    }

    closed spec fn wf(&self) -> bool {
        self.source_channel_count > 0 && self.target_channel_count > 0
    }

    fn samples_advanced(&self) -> (count: usize) {
        self.samples_advanced
    }

    fn current_sample_index(&self) -> (index: usize) {
        self.samples_advanced / self.target_channel_count
    }

    fn current_channel_index(&self) -> (index: usize) {
        self.samples_advanced % self.source_channel_count
    }

    fn advance(&mut self) {
        self.samples_advanced += 1;
    }

    fn reset(&mut self) {
        self.samples_advanced = 0;
    }
}

/// More decoded channels than output channels. Nothing steps through such
/// a pair yet, so this holds the two counts and has no position.
pub struct DownChannel {
    pub source_channel_count: usize,
    pub target_channel_count: usize,
}

/// The stepper for a pair of channel counts, whichever of the three kinds
/// the pair calls for.
pub enum FrameStepper {
    OneToOne(OneToOneFrame),
    UpChannel(UpChannel),
    DownChannel(DownChannel),
}

impl Frame for FrameStepper {
    open spec fn view(&self) -> FrameView {
        match self {
            FrameStepper::OneToOne(frame) => frame.view(),
            FrameStepper::UpChannel(frame) => frame.view(),
            FrameStepper::DownChannel(pair) => FrameView::start(
                pair.source_channel_count as nat,
                pair.target_channel_count as nat,
            ),
        }
    }

    /// A pair with more decoded than output channels cannot be stepped.
    open spec fn wf(&self) -> bool {
        match self {
            FrameStepper::OneToOne(frame) => frame.wf(),
            FrameStepper::UpChannel(frame) => frame.wf(),
            FrameStepper::DownChannel(_) => false,
        }
    }

    fn advance(&mut self) {
        match self {
            FrameStepper::OneToOne(frame) => frame.advance(),
            FrameStepper::UpChannel(frame) => frame.advance(),
            FrameStepper::DownChannel(_) => {},
        }
    }

    fn current_sample_index(&self) -> (index: usize) {
        match self {
            FrameStepper::OneToOne(frame) => frame.current_sample_index(),
            FrameStepper::UpChannel(frame) => frame.current_sample_index(),
            FrameStepper::DownChannel(_) => 0,
        }
    }

    fn current_channel_index(&self) -> (index: usize) {
        match self {
            FrameStepper::OneToOne(frame) => frame.current_channel_index(),
            FrameStepper::UpChannel(frame) => frame.current_channel_index(),
            FrameStepper::DownChannel(_) => 0,
        }
    }

    fn samples_advanced(&self) -> (count: usize) {
        match self {
            FrameStepper::OneToOne(frame) => frame.samples_advanced(),
            FrameStepper::UpChannel(frame) => frame.samples_advanced(),
            FrameStepper::DownChannel(_) => 0,
        }
    }

    fn reset(&mut self) {
        match self {
            FrameStepper::OneToOne(frame) => frame.reset(),
            FrameStepper::UpChannel(frame) => frame.reset(),
            FrameStepper::DownChannel(_) => {},
        }
    }
}

/// The stepper for reading `source_channel_count` decoded channels into
/// `target_channel_count` output channels.
pub fn new_frame(source_channel_count: usize, target_channel_count: usize) -> (frame: FrameStepper)
    ensures
        frame.view() == FrameView::start(source_channel_count as nat, target_channel_count as nat),
        frame is OneToOne <==> source_channel_count == target_channel_count,
        frame is UpChannel <==> source_channel_count < target_channel_count,
        frame is DownChannel <==> source_channel_count > target_channel_count,
        frame.wf() <==> source_channel_count == target_channel_count || 0 < source_channel_count
            < target_channel_count,
{
    if source_channel_count == target_channel_count {
        FrameStepper::OneToOne(OneToOneFrame::new(source_channel_count))
    } else if source_channel_count < target_channel_count {
        FrameStepper::UpChannel(UpChannel::new(source_channel_count, target_channel_count))
    } else {
        FrameStepper::DownChannel(DownChannel { source_channel_count, target_channel_count })
    }
}

/// A stepper that has not moved reads channel 0 of sample 0.
pub proof fn lemma_start_position(n: nat)
    ensures
        FrameView::start(n, n).channel_index() == 0,
        FrameView::start(n, n).sample_index() == 0,
{
    if n > 0 {
        lemma_small_mod(0, n);
        lemma_basic_div(0, n as int);
    }
}

/// How a position over `n` channels moves with one read: within a sample
/// the channel goes up by one; from the last channel it goes to channel 0 of
/// the next sample.
pub proof fn lemma_step_position(n: nat, k: nat)
    requires
        n > 0,
    ensures
        k % n + 1 == n ==> (k + 1) % n == 0 && (k + 1) / n == k / n + 1,
        k % n + 1 != n ==> (k + 1) % n == k % n + 1 && (k + 1) / n == k / n,
{
    let q = (k / n) as int;
    let r = (k % n) as int;
    assert(k == n * q + r && 0 <= r < n) by (nonlinear_arith)
        requires
            n > 0,
            q == k / n,
            r == k % n,
    ;
    if r + 1 == n {
        assert(k + 1 == (q + 1) * n + 0) by (nonlinear_arith)
            requires
                k == n * q + r,
                r + 1 == n,
        ;
        lemma_fundamental_div_mod_converse((k + 1) as int, n as int, q + 1, 0);
    } else {
        assert(k + 1 == q * n + (r + 1)) by (nonlinear_arith)
            requires
                k == n * q + r,
        ;
        lemma_fundamental_div_mod_converse((k + 1) as int, n as int, q, r + 1);
    }
}

/// `k` reads move the count of reads by `k` and leave the channel counts.
pub proof fn lemma_steps(view: FrameView, k: nat)
    ensures
        view.steps(k) == (FrameView { advanced: view.advanced + k, ..view }),
    decreases k,
{
    if k > 0 {
        lemma_steps(view, (k - 1) as nat);
    }
}

/// With `n` channels on both sides, `k` reads from the start lead to channel
/// `k mod n` of sample `k div n`.
pub proof fn lemma_one_to_one_position(n: nat, k: nat)
    requires
        n > 0,
    ensures
        FrameView::start(n, n).steps(k).channel_index() == k % n,
        FrameView::start(n, n).steps(k).sample_index() == k / n,
{
    lemma_steps(FrameView::start(n, n), k);
}

/// With `source` decoded and `target` output channels, `k` reads from the
/// start lead to sample `k div target`, in channel `k mod source`.
pub proof fn lemma_up_channel_position(source: nat, target: nat, k: nat)
    requires
        source > 0,
        target > 0,
    ensures
        FrameView::start(source, target).steps(k).sample_index() == k / target,
        FrameView::start(source, target).steps(k).channel_index() == k % source,
{
    lemma_steps(FrameView::start(source, target), k);
}

/// Each decoded sample is read `target` times in a row: the reads numbered
/// `j * target` to `j * target + target - 1` all read sample `j`.
pub proof fn lemma_up_channel_repeats(source: nat, target: nat, j: nat, i: nat)
    requires
        target > 0,
        i < target,
    ensures
        FrameView::start(source, target).steps(j * target + i).sample_index() == j,
{
    lemma_steps(FrameView::start(source, target), j * target + i);
    lemma_fundamental_div_mod_converse(
        (j * target + i) as int,
        target as int,
        j as int,
        i as int,
    );
}

} // verus!
