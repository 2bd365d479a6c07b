//! The completion-signal combinator: a zero-duration source whose only
//! behavior is to invoke a caller-supplied callback exactly once, on its
//! first pull, and report exhaustion forever after. It detects "the source
//! before this one in a sequential chain has finished" without polling.

use vstd::prelude::*;
use crate::source::{SeekError, Source, DEFAULT_SAMPLE_RATE};

verus! {

/// An empty source which executes a callback function on its first pull.
pub struct EmptyCallback<F: Fn() -> ()> {
    callback: F,
    fired: bool,
    fire_count: Ghost<nat>,
}

impl<F: Fn() -> ()> EmptyCallback<F> {
    /// Has the callback already been invoked?
    pub closed spec fn spec_fired(self) -> bool {
        self.fired
    }

    /// How many times the callback has been invoked over this value's
    /// whole lifetime.
    pub closed spec fn spec_fire_count(self) -> nat {
        self.fire_count@
    }

    /// The stored callback may be invoked.
    pub closed spec fn callback_ok(self) -> bool {
        call_requires(self.callback, ())
    }

    /// The stored callback, so contracts can speak of its behavior.
    pub closed spec fn spec_callback(self) -> F {
        self.callback
    }

    /// Create an empty source which executes a callback function exactly
    /// once, on the first pull.
    pub fn new(callback: F) -> (r: EmptyCallback<F>)
        requires
            call_requires(callback, ()),
        ensures
            r.wf(),
            !r.spec_fired(),
            r.spec_fire_count() == 0,
    {
        EmptyCallback { callback, fired: false, fire_count: Ghost(0nat) }
    }
}

impl<F: Fn() -> ()> Source for EmptyCallback<F> {
    open spec fn wf(&self) -> bool {
        self.callback_ok() && self.spec_fire_count() == if self.spec_fired() {
            1nat
        } else {
            0nat
        }
    }

    closed spec fn spec_channels(&self) -> u16 {
        1
    }

    closed spec fn spec_sample_rate(&self) -> u32 {
        DEFAULT_SAMPLE_RATE
    }

    closed spec fn spec_span_len(&self) -> Option<usize> {
        None
    }

    /// Law: the callback fires on the first pull and never again — the fire
    /// count rises to one and stays there no matter how often this source
    /// is pulled afterwards. Every pull reports exhaustion.
    fn next(&mut self) -> (s: Option<i32>)
        ensures
            final(self).wf(),
            s is None,
            final(self).spec_fired(),
            final(self).spec_fire_count() == if old(self).spec_fired() {
                old(self).spec_fire_count()
            } else {
                old(self).spec_fire_count() + 1
            },
            final(self).spec_fire_count() <= 1,
            !old(self).spec_fired() ==> call_ensures(old(self).spec_callback(), (), ()),
            final(self).spec_callback() == old(self).spec_callback(),
    {
        if !self.fired {
            (self.callback)();
            self.fired = true;
            self.fire_count = Ghost(self.fire_count@ + 1);
        }
        None
    }

    /// A completion signal always reports one channel.
    fn channels(&self) -> (c: u16)
        ensures
            c == 1,
    {
        1
    }

    /// A completion signal reports the fixed default sample rate.
    fn sample_rate(&self) -> (r: u32)
        ensures
            r == DEFAULT_SAMPLE_RATE,
    {
        DEFAULT_SAMPLE_RATE
    }

    fn current_span_len(&self) -> (l: Option<usize>)
        ensures
            l is None,
    {
        None
    }

    /// A completion signal occupies no stream time at all.
    fn total_duration(&self) -> (d: Option<u64>)
        ensures
            d == Some(0u64),
    {
        Some(0)
    }

    /// This source cannot reposition; every seek fails and the state is
    /// left unchanged.
    fn try_seek(&mut self, pos_micros: u64) -> (r: Result<(), SeekError>)
        ensures
            *final(self) == *old(self),
            r matches Err(SeekError::NotSupported { .. }),
    {
        Err(SeekError::NotSupported { underlying_source: "EmptyCallback" })
    }
}

} // verus!
