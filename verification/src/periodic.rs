//! The periodic control combinator: wraps an owned source and, on a caller
//! chosen cadence measured in stream time, hands the wrapped source to a
//! caller-supplied callback. The callback typically reads a cross-thread
//! shared flag and applies it to the wrapped combinator's enable state, so
//! an external toggle becomes visible within one cadence interval.

use vstd::prelude::*;
use crate::source::{SeekError, Source};

verus! {

/// The cadence in samples that a cadence in microseconds works out to:
/// `micros * rate * channels / 1_000_000`, at least one sample, capped at
/// `u32::MAX`.
pub open spec fn spec_period_samples(micros: nat, rate: nat, channels: nat) -> nat {
    let p = micros * rate * channels / 1_000_000;
    if p < 1 {
        1
    } else if p > 0xFFFF_FFFF {
        0xFFFF_FFFF
    } else {
        p
    }
}

/// Periodic inspection and control of an owned source.
#[verifier::reject_recursive_types(S)]
pub struct PeriodicAccess<S: Source, F: Fn(S) -> S> {
    inner: Option<S>,
    callback: F,
    period_samples: u32,
    left: u32,
    fires: Ghost<nat>,
}

impl<S: Source, F: Fn(S) -> S> PeriodicAccess<S, F> {
    pub closed spec fn spec_period_samples(self) -> u32 {
        self.period_samples
    }

    /// Samples still to produce before the callback fires again; the
    /// observed latency of an external toggle is bounded by this, and so
    /// by the configured cadence.
    pub closed spec fn spec_left(self) -> u32 {
        self.left
    }

    /// How often the callback has fired over this value's lifetime.
    pub closed spec fn spec_fires(self) -> nat {
        self.fires@
    }

    pub closed spec fn spec_inner(self) -> S {
        self.inner->0
    }

    /// The stored callback, so contracts can speak of its behavior.
    pub closed spec fn spec_callback(self) -> F {
        self.callback
    }

    /// The callback must accept any well-formed source and hand back a
    /// well-formed source.
    pub closed spec fn callback_ok(self) -> bool {
        &&& forall|s: S| s.wf() ==> call_requires(self.callback, (s,))
        &&& forall|s: S, r: S| call_ensures(self.callback, (s,), r) ==> r.wf()
    }

    pub closed spec fn periodic_wf(self) -> bool {
        &&& self.inner is Some
        &&& (self.inner->0).wf()
        &&& self.callback_ok()
        &&& 1 <= self.left <= self.period_samples
    }

    /// Wrap `inner`, calling `callback` with the wrapped source once every
    /// `period_micros` of produced stream time (cadence), computed from the
    /// source's own rate and channel count.
    pub fn new(inner: S, period_micros: u64, callback: F) -> (r: PeriodicAccess<S, F>)
        requires
            inner.wf(),
            forall|s: S| s.wf() ==> call_requires(callback, (s,)),
            forall|s: S, r: S| call_ensures(callback, (s,), r) ==> r.wf(),
        ensures
            r.wf(),
            r.spec_fires() == 0,
            r.spec_period_samples() == spec_period_samples(
                period_micros as nat,
                inner.spec_sample_rate() as nat,
                inner.spec_channels() as nat,
            ),
            r.spec_left() == r.spec_period_samples(),
    {
        let rate: u64 = inner.sample_rate() as u64;
        let ch: u64 = inner.channels() as u64;
        proof {
            assert((period_micros as int) * (rate as int) <= 0xFFFF_FFFF_FFFF_FFFFu64
                * 0xFFFF_FFFFu64) by (nonlinear_arith)
                requires
                    period_micros <= 0xFFFF_FFFF_FFFF_FFFFu64,
                    rate <= 0xFFFF_FFFFu64,
                    period_micros >= 0,
                    rate >= 0,
            ;
            assert((period_micros as int) * (rate as int) * (ch as int) <= 0xFFFF_FFFF_FFFF_FFFFu64
                * 0xFFFF_FFFFu64 * 0xFFFFu64) by (nonlinear_arith)
                requires
                    (period_micros as int) * (rate as int) <= 0xFFFF_FFFF_FFFF_FFFFu64
                        * 0xFFFF_FFFFu64,
                    ch <= 0xFFFFu64,
                    (period_micros as int) * (rate as int) >= 0,
                    ch >= 0,
            ;
        }
        let p128: u128 = (period_micros as u128) * (rate as u128) * (ch as u128) / 1_000_000;
        let period: u32 = if p128 < 1 {
            1
        } else if p128 > 0xFFFF_FFFF {
            0xFFFF_FFFF
        } else {
            p128 as u32
        };
        PeriodicAccess {
            inner: Some(inner),
            callback,
            period_samples: period,
            left: period,
            fires: Ghost(0nat),
        }
    }

    /// Read-only access to the wrapped source.
    pub fn inner_ref(&self) -> (r: &S)
        requires
            self.wf(),
        ensures
            *r == self.spec_inner(),
    {
        match &self.inner {
            Some(s) => s,
            None => unreached(),
        }
    }
}

impl<S: Source, F: Fn(S) -> S> Source for PeriodicAccess<S, F> {
    open spec fn wf(&self) -> bool {
        self.periodic_wf()
    }

    closed spec fn spec_channels(&self) -> u16 {
        (self.inner->0).spec_channels()
    }

    closed spec fn spec_sample_rate(&self) -> u32 {
        (self.inner->0).spec_sample_rate()
    }

    closed spec fn spec_span_len(&self) -> Option<usize> {
        (self.inner->0).spec_span_len()
    }

    /// Law: each produced sample brings the callback countdown down by
    /// one; when it reaches zero the callback fires and the countdown
    /// resets to the full cadence, so between two fires at most
    /// `period_samples` samples are produced. An exhausted source fires
    /// nothing and the countdown holds.
    fn next(&mut self) -> (s: Option<i32>)
        ensures
            final(self).wf(),
            final(self).spec_period_samples() == old(self).spec_period_samples(),
            s is None ==> (final(self).spec_left() == old(self).spec_left() && final(self).spec_fires() == old(self).spec_fires()),
            (s is Some && old(self).spec_left() > 1) ==> (final(self).spec_left() == old(self).spec_left() - 1 && final(self).spec_fires() == old(self).spec_fires()),
            (s is Some && old(self).spec_left() == 1) ==> (final(self).spec_left() == old(self).spec_period_samples() && final(self).spec_fires() == old(self).spec_fires() + 1),
            (s is Some && old(self).spec_left() == 1) ==> exists|m: S|
                call_ensures(old(self).spec_callback(), (m,), final(self).spec_inner()),
            final(self).spec_callback() == old(self).spec_callback(),
    {
        let mut src: S = match self.inner.take() {
            Some(s) => s,
            None => unreached(),
        };
        let s = src.next();
        match s {
            None => {
                self.inner = Some(src);
                None
            },
            Some(x) => {
                if self.left > 1 {
                    self.left = self.left - 1;
                    self.inner = Some(src);
                } else {
                    let ghost src_before = src;
                    let src2: S = (self.callback)(src);
                    self.fires = Ghost(self.fires@ + 1);
                    self.left = self.period_samples;
                    self.inner = Some(src2);
                    proof {
                        assert(old(self).spec_callback() == self.spec_callback());
                        assert(self.spec_inner() == src2);
                        assert(call_ensures(old(self).spec_callback(), (src_before,), src2));
                        assert(exists|m: S|
                            call_ensures(old(self).spec_callback(), (m,), self.spec_inner()));
                    }
                }
                Some(x)
            },
        }
    }

    fn channels(&self) -> (c: u16) {
        match &self.inner {
            Some(s) => s.channels(),
            None => unreached(),
        }
    }

    fn sample_rate(&self) -> (r: u32) {
        match &self.inner {
            Some(s) => s.sample_rate(),
            None => unreached(),
        }
    }

    fn current_span_len(&self) -> (l: Option<usize>) {
        match &self.inner {
            Some(s) => s.current_span_len(),
            None => unreached(),
        }
    }

    fn total_duration(&self) -> (d: Option<u64>) {
        match &self.inner {
            Some(s) => s.total_duration(),
            None => unreached(),
        }
    }

    /// Seeking passes straight through to the wrapped source; the cadence
    /// countdown is left as it stands.
    fn try_seek(&mut self, pos_micros: u64) -> (r: Result<(), SeekError>) {
        let mut src: S = match self.inner.take() {
            Some(s) => s,
            None => unreached(),
        };
        let r = src.try_seek(pos_micros);
        self.inner = Some(src);
        r
    }
}

} // verus!
