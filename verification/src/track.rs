//! A track: the clip that sounds, and the clips that are kept for later.

use crate::source::Source;
use crate::source_reader::{ReadStep, SourceReader};
use vstd::prelude::*;

verus! {

/// One clip that is read, and more that are held back.
pub struct Track<S: Source> {
    source_readers: Vec<SourceReader<S>>,
    source: SourceReader<S>,
}

impl<S: Source> Track<S> {
    /// The reader of the clip that sounds.
    pub closed spec fn source(&self) -> SourceReader<S> {
        self.source
    }

    /// The readers that are held back, in the order in which they came.
    pub closed spec fn held(&self) -> Seq<SourceReader<S>> {
        self.source_readers@
    }

    /// A track that sounds `reader` and holds nothing back.
    pub fn new(reader: SourceReader<S>) -> (track: Self)
        ensures
            track.source() == reader,
            track.held() == Seq::<SourceReader<S>>::empty(),
    {
        Track { source_readers: Vec::new(), source: reader }
    }

    /// Holds one more reader back, behind those that are held.
    pub fn add(&mut self, reader: SourceReader<S>)
        ensures
            final(self).source() == old(self).source(),
            final(self).held() == old(self).held().push(reader),
    {
        self.source_readers.push(reader);
    }

    /// The next sample of the clip that sounds, or what stands in its way.
    /// The readers that are held back are left alone.
    pub fn next_sample(&mut self) -> (step: ReadStep)
        requires
            old(self).source().wf(),
        ensures
            final(self).source().wf(),
            old(self).source()@.yields(step, final(self).source()@),
            final(self).held() == old(self).held(),
    {
        self.source.next()
    }

    /// The reader of the clip that sounds.
    pub fn reader_mut(&mut self) -> (reader: &mut SourceReader<S>)
        ensures
            *reader == old(self).source(),
            final(self).source() == *final(reader),
            final(self).held() == old(self).held(),
    {
        &mut self.source
    }
}

} // verus!
