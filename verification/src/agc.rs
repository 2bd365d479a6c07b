//! The automatic gain control combinator: wraps a source and applies a
//! smoothly varying multiplicative gain that tracks a target peak level.
//!
//! Gain is fixed point with 16 fraction bits (65536 is unity). The gain
//! moves by at most one configured step per pull, so repeated enable and
//! disable toggling cannot produce discontinuities; the multiplier never
//! exceeds the configured maximum and enabled output magnitude never
//! exceeds the configured ceiling.

use vstd::prelude::*;
use crate::source::{SeekError, Source};

verus! {

/// The fixed-point gain value that leaves a sample unchanged.
pub const UNITY_GAIN_Q16: u32 = 65536;

/// What applying a fixed-point gain to one sample yields: the magnitude is
/// scaled by `gain_q16 / 65536` (truncating), limited to the ceiling, and
/// the sign restored.
pub open spec fn spec_apply_gain(x: int, gain_q16: nat, ceiling: int) -> int
    recommends
        ceiling >= 0,
        -0x8000_0000 <= x < 0x8000_0000,
{
    let mag = if x < 0 {
        -x
    } else {
        x
    };
    let scaled = mag * gain_q16 / 65536;
    let limited = if scaled > ceiling {
        ceiling
    } else {
        scaled
    };
    if x < 0 {
        -limited
    } else {
        limited
    }
}

/// Apply a fixed-point gain to one sample, exactly as `spec_apply_gain`
/// says: scale the magnitude, limit it to the ceiling, keep the sign.
pub fn apply_gain(x: i32, gain_q16: u32, ceiling: i32) -> (r: i32)
    requires
        ceiling >= 0,
    ensures
        r == spec_apply_gain(x as int, gain_q16 as nat, ceiling as int),
        -ceiling <= r <= ceiling,
{
    let neg: bool = x < 0;
    let mag: u64 = if neg {
        (-(x as i64)) as u64
    } else {
        x as u64
    };
    proof {
        assert(mag * (gain_q16 as u64) <= 0x8000_0000u64 * 0xFFFF_FFFFu64) by (nonlinear_arith)
            requires
                mag <= 0x8000_0000u64,
                gain_q16 <= 0xFFFF_FFFFu64,
        ;
    }
    let scaled: u64 = mag * (gain_q16 as u64) / 65536;
    let limited: u64 = if scaled > ceiling as u64 {
        ceiling as u64
    } else {
        scaled
    };
    if neg {
        -(limited as i32)
    } else {
        limited as i32
    }
}

/// Automatic gain control around an owned source.
pub struct Agc<S: Source> {
    inner: S,
    enabled: bool,
    target_peak: i32,
    max_gain_q16: u32,
    attack_step_q16: u32,
    release_step_q16: u32,
    ceiling: i32,
    gain_q16: u32,
}

impl<S: Source> Agc<S> {
    pub closed spec fn spec_enabled(self) -> bool {
        self.enabled
    }

    pub closed spec fn spec_gain_q16(self) -> u32 {
        self.gain_q16
    }

    pub closed spec fn spec_max_gain_q16(self) -> u32 {
        self.max_gain_q16
    }

    pub closed spec fn spec_ceiling(self) -> i32 {
        self.ceiling
    }

    pub closed spec fn spec_attack_step_q16(self) -> u32 {
        self.attack_step_q16
    }

    pub closed spec fn spec_release_step_q16(self) -> u32 {
        self.release_step_q16
    }

    pub closed spec fn spec_target_peak(self) -> i32 {
        self.target_peak
    }

    pub closed spec fn spec_inner(self) -> S {
        self.inner
    }

    /// Everything the enable toggle and the smoothing must preserve: the
    /// wrapped source stays well formed, the configuration is sane, and
    /// the gain multiplier never exceeds its configured maximum.
    pub closed spec fn agc_wf(self) -> bool {
        &&& self.inner.wf()
        &&& self.target_peak >= 0
        &&& self.ceiling >= 0
        &&& self.max_gain_q16 >= UNITY_GAIN_Q16
        &&& self.gain_q16 <= self.max_gain_q16
    }

    /// Wrap `inner`. Gain starts at unity and the combinator starts
    /// enabled.
    pub fn new(
        inner: S,
        target_peak: i32,
        max_gain_q16: u32,
        attack_step_q16: u32,
        release_step_q16: u32,
        ceiling: i32,
    ) -> (r: Agc<S>)
        requires
            inner.wf(),
            target_peak >= 0,
            ceiling >= 0,
            max_gain_q16 >= UNITY_GAIN_Q16,
        ensures
            r.wf(),
            r.spec_enabled(),
            r.spec_gain_q16() == UNITY_GAIN_Q16,
            r.spec_max_gain_q16() == max_gain_q16,
            r.spec_ceiling() == ceiling,
            r.spec_inner() == inner,
    {
        Agc {
            inner,
            enabled: true,
            target_peak,
            max_gain_q16,
            attack_step_q16,
            release_step_q16,
            ceiling,
            gain_q16: UNITY_GAIN_Q16,
        }
    }

    /// Runtime toggle: a single non-blocking write per call, never a lock.
    /// Disabling holds the smoothing state so re-enabling resumes near the
    /// prior operating point.
    pub fn set_enabled(&mut self, on: bool)
        requires
            old(self).wf(),
        ensures
            final(self).wf(),
            final(self).spec_enabled() == on,
            final(self).spec_gain_q16() == old(self).spec_gain_q16(),
            final(self).spec_inner() == old(self).spec_inner(),
            final(self).spec_max_gain_q16() == old(self).spec_max_gain_q16(),
            final(self).spec_ceiling() == old(self).spec_ceiling(),
    {
        self.enabled = on;
    }

    pub fn is_enabled(&self) -> (r: bool)
        ensures
            r == self.spec_enabled(),
    {
        self.enabled
    }

    pub fn current_gain_q16(&self) -> (r: u32)
        ensures
            r == self.spec_gain_q16(),
    {
        self.gain_q16
    }
}

impl<S: Source> Source for Agc<S> {
    open spec fn wf(&self) -> bool {
        self.agc_wf()
    }

    closed spec fn spec_channels(&self) -> u16 {
        self.inner.spec_channels()
    }

    closed spec fn spec_sample_rate(&self) -> u32 {
        self.inner.spec_sample_rate()
    }

    closed spec fn spec_span_len(&self) -> Option<usize> {
        self.inner.spec_span_len()
    }

    /// Law: the gain multiplier never exceeds the configured maximum, it
    /// slews by at most one configured step per pull, and while enabled
    /// the output magnitude never exceeds the configured ceiling. While
    /// disabled samples pass through untouched and the smoothing state is
    /// frozen.
    fn next(&mut self) -> (s: Option<i32>)
        ensures
            final(self).wf(),
            final(self).spec_gain_q16() <= final(self).spec_max_gain_q16(),
            final(self).spec_enabled() == old(self).spec_enabled(),
            final(self).spec_max_gain_q16() == old(self).spec_max_gain_q16(),
            final(self).spec_ceiling() == old(self).spec_ceiling(),
            final(self).spec_gain_q16() <= old(self).spec_gain_q16() + old(
                self,
            ).spec_release_step_q16(),
            final(self).spec_gain_q16() + old(self).spec_attack_step_q16() >= old(
                self,
            ).spec_gain_q16(),
            old(self).spec_enabled() && s is Some ==> -final(self).spec_ceiling() <= s->0
                <= final(self).spec_ceiling(),
            !old(self).spec_enabled() ==> final(self).spec_gain_q16() == old(self).spec_gain_q16(),
    {
        let s = self.inner.next();
        match s {
            None => None,
            Some(x) => {
                if !self.enabled {
                    return Some(x);
                }
                let neg: bool = x < 0;
                let mag: u64 = if neg {
                    (-(x as i64)) as u64
                } else {
                    x as u64
                };
                proof {
                    assert(mag * (self.gain_q16 as u64) <= 0x8000_0000u64 * 0xFFFF_FFFFu64)
                        by (nonlinear_arith)
                        requires
                            mag <= 0x8000_0000u64,
                            self.gain_q16 <= 0xFFFF_FFFFu64,
                    ;
                }
                let applied: u64 = mag * (self.gain_q16 as u64) / 65536;
                if applied > self.target_peak as u64 {
                    if self.gain_q16 > self.attack_step_q16 {
                        self.gain_q16 = self.gain_q16 - self.attack_step_q16;
                    } else {
                        self.gain_q16 = 0;
                    }
                } else if applied < self.target_peak as u64 {
                    if self.release_step_q16 <= self.max_gain_q16 - self.gain_q16 {
                        self.gain_q16 = self.gain_q16 + self.release_step_q16;
                    } else {
                        self.gain_q16 = self.max_gain_q16;
                    }
                }
                Some(apply_gain(x, self.gain_q16, self.ceiling))
            },
        }
    }

    fn channels(&self) -> (c: u16) {
        self.inner.channels()
    }

    fn sample_rate(&self) -> (r: u32) {
        self.inner.sample_rate()
    }

    fn current_span_len(&self) -> (l: Option<usize>) {
        self.inner.current_span_len()
    }

    fn total_duration(&self) -> (d: Option<u64>) {
        self.inner.total_duration()
    }

    /// Seeking passes straight through to the wrapped source.
    fn try_seek(&mut self, pos_micros: u64) -> (r: Result<(), SeekError>) {
        self.inner.try_seek(pos_micros)
    }
}

} // verus!
