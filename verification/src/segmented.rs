//! A synthetic producer with declared span boundaries: a list of bounded
//! span lengths followed by a tail of unknown length. It exists to drive
//! span-aware consumers — the span splicer above all — through metadata
//! discontinuities that a single WAV stream never shows.

use vstd::prelude::*;
use crate::source::{SeekError, Source, DEFAULT_SAMPLE_RATE};

verus! {

/// The amplitude every sample of this producer carries.
pub const SEGMENT_SAMPLE: i32 = 1000;

/// A producer whose stream is the given bounded spans, in order, then an
/// unknown-length tail.
pub struct SegmentedSource {
    lens: Vec<u32>,
    idx: usize,
    pos: u32,
    tail_left: u32,
}

impl SegmentedSource {
    pub closed spec fn seg_wf(self) -> bool {
        &&& self.idx <= self.lens@.len()
        &&& self.idx < self.lens@.len() ==> self.pos < self.lens@[self.idx as int]
        &&& forall|i: int| 0 <= i < self.lens@.len() ==> self.lens@[i] >= 1
    }

    /// Is every span and the tail used up?
    pub closed spec fn spec_exhausted(self) -> bool {
        self.idx == self.lens@.len() && self.tail_left == 0
    }

    /// The declared span lengths still ahead, current one first.
    pub closed spec fn spec_idx(self) -> int {
        self.idx as int
    }

    pub closed spec fn spec_lens(self) -> Seq<u32> {
        self.lens@
    }

    pub closed spec fn spec_tail_left(self) -> u32 {
        self.tail_left
    }

    /// Samples already produced of the current bounded span.
    pub closed spec fn spec_pos(self) -> u32 {
        self.pos
    }

    /// Build from the bounded span lengths (each at least one sample) and
    /// the number of samples in the unknown-length tail.
    pub fn new(lens: Vec<u32>, tail: u32) -> (r: SegmentedSource)
        requires
            forall|i: int| 0 <= i < lens@.len() ==> lens@[i] >= 1,
        ensures
            r.wf(),
            r.spec_lens() == lens@,
            r.spec_idx() == 0,
            r.spec_tail_left() == tail,
    {
        SegmentedSource { lens, idx: 0, pos: 0, tail_left: tail }
    }
}

impl Source for SegmentedSource {
    open spec fn wf(&self) -> bool {
        self.seg_wf()
    }

    closed spec fn spec_channels(&self) -> u16 {
        1
    }

    closed spec fn spec_sample_rate(&self) -> u32 {
        DEFAULT_SAMPLE_RATE
    }

    closed spec fn spec_span_len(&self) -> Option<usize> {
        if self.idx < self.lens@.len() {
            Some(((self.lens@[self.idx as int] - self.pos) as usize))
        } else {
            None
        }
    }

    /// Produce one constant sample until the spans and the tail are used
    /// up; exhaustion arrives exactly then and is permanent.
    fn next(&mut self) -> (s: Option<i32>)
        ensures
            final(self).wf(),
            s is None <==> old(self).spec_exhausted(),
            old(self).spec_exhausted() ==> *final(self) == *old(self),
            s is Some ==> s == Some(SEGMENT_SAMPLE),
    {
        if self.idx < self.lens.len() {
            let l: u32 = self.lens[self.idx];
            self.pos = self.pos + 1;
            if self.pos == l {
                self.idx = self.idx + 1;
                self.pos = 0;
            }
            Some(SEGMENT_SAMPLE)
        } else if self.tail_left > 0 {
            self.tail_left = self.tail_left - 1;
            Some(SEGMENT_SAMPLE)
        } else {
            None
        }
    }

    fn channels(&self) -> (c: u16) {
        1
    }

    fn sample_rate(&self) -> (r: u32) {
        DEFAULT_SAMPLE_RATE
    }

    /// Inside a bounded span: the samples left in it. In the tail: unknown.
    fn current_span_len(&self) -> (l: Option<usize>)
        ensures
            self.spec_idx() < self.spec_lens().len() ==> l == Some(
                (self.spec_lens()[self.spec_idx()] - self.spec_pos()) as usize,
            ),
            self.spec_idx() == self.spec_lens().len() ==> l is None,
    {
        if self.idx < self.lens.len() {
            Some((self.lens[self.idx] - self.pos) as usize)
        } else {
            None
        }
    }

    fn total_duration(&self) -> (d: Option<u64>) {
        None
    }

    /// This producer cannot reposition.
    fn try_seek(&mut self, pos_micros: u64) -> (r: Result<(), SeekError>)
        ensures
            *final(self) == *old(self),
            r is Err,
    {
        Err(SeekError::NotSupported { underlying_source: "SegmentedSource" })
    }
}

} // verus!
