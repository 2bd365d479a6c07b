//! The `Source` capability contract: every producer and combinator in this
//! library is a stateful, pull-based producer of samples and stream metadata.

use vstd::prelude::*;

verus! {

/// The sample rate a source reports when it produces no real audio.
pub const DEFAULT_SAMPLE_RATE: u32 = 44100;

/// Why a seek request failed.
#[derive(Clone, Debug)]
pub enum SeekError {
    /// The concrete source cannot reposition; names the source type so a
    /// caller can tell which stage of a chain refused.
    NotSupported { underlying_source: &'static str },
    /// The byte resource failed while repositioning; the stream position is
    /// undefined afterwards and the source should be treated as unusable.
    Io,
}

/// The capability set every producer and combinator implements.
///
/// A source is pulled one sample at a time; `next` either produces a sample
/// in the canonical 32-bit amplitude domain or signals exhaustion with
/// `None`. Metadata (channel count, sample rate) is constant within a span.
pub trait Source: Sized {
    /// Well-formedness of the producer's internal state; constructors
    /// establish it and every operation preserves it.
    spec fn wf(&self) -> bool;

    /// The channel count `channels` returns.
    spec fn spec_channels(&self) -> u16;

    /// The sample rate `sample_rate` returns.
    spec fn spec_sample_rate(&self) -> u32;

    /// The span length `current_span_len` reports.
    spec fn spec_span_len(&self) -> Option<usize>;

    /// Produce the next sample, or signal exhaustion.
    fn next(&mut self) -> (s: Option<i32>)
        requires
            old(self).wf(),
        ensures
            final(self).wf(),
    ;

    /// Channels interleaved in each frame of this span.
    fn channels(&self) -> (c: u16)
        requires
            self.wf(),
        ensures
            c == self.spec_channels(),
    ;

    /// Sample rate of this span, in Hz.
    fn sample_rate(&self) -> (r: u32)
        requires
            self.wf(),
        ensures
            r == self.spec_sample_rate(),
    ;

    /// Samples left before the next metadata discontinuity, `None` when
    /// unknown or unbounded.
    fn current_span_len(&self) -> (l: Option<usize>)
        requires
            self.wf(),
        ensures
            l == self.spec_span_len(),
    ;

    /// Total stream duration in microseconds, `None` when unknown.
    fn total_duration(&self) -> (d: Option<u64>)
        requires
            self.wf(),
    ;

    /// Reposition so the following produced sample lies at the frame
    /// boundary at or before `pos_micros`; requests beyond the end clamp to
    /// end-of-media.
    fn try_seek(&mut self, pos_micros: u64) -> (r: Result<(), SeekError>)
        requires
            old(self).wf(),
        ensures
            final(self).wf(),
    ;
}

} // verus!
