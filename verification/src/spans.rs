//! The span splicer: for each bounded span of an ongoing source, hand
//! exclusive ownership of that source to a freshly built external sub-graph,
//! let it process exactly that span, then reclaim ownership and repeat —
//! without ever stalling production.
//!
//! Ownership travels as a strict move: into a span-bounded forwarder
//! (`SpanSource`) that the sub-graph pulls, and back through a one-shot
//! return channel whose receiving side is only ever polled, never awaited.

use vstd::prelude::*;
use std::sync::mpsc::{Receiver, Sender};
use crate::source::{SeekError, Source, DEFAULT_SAMPLE_RATE};

verus! {

#[verifier::external_type_specification]
#[verifier::external_body]
#[verifier::reject_recursive_types(T)]
pub struct ExSender<T>(Sender<T>);

#[verifier::external_type_specification]
#[verifier::external_body]
#[verifier::reject_recursive_types(T)]
pub struct ExReceiver<T>(Receiver<T>);

/// Relies on std::sync::mpsc::channel: creates a connected sender and
/// receiver pair. Nothing about the pair's shared state is visible here;
/// what travels through it is guarded by `SpanReturn`'s type invariant.
#[verifier::external_body]
fn oneshot_channel<T>() -> (Sender<T>, Receiver<T>) {
    std::sync::mpsc::channel()
}

/// Relies on std::sync::mpsc::Sender::send: queues the value for the
/// receiving half without ever blocking; hands the value back when the
/// receiver has been dropped.
#[verifier::external_body]
fn channel_send<T>(tx: &Sender<T>, v: T) -> (r: Result<(), T>) {
    match tx.send(v) {
        Ok(()) => Ok(()),
        Err(std::sync::mpsc::SendError(x)) => Err(x),
    }
}

/// Relies on std::sync::mpsc::Receiver::try_recv: takes a queued value if
/// one is ready, without ever blocking.
#[verifier::external_body]
fn channel_try_recv<T>(rx: &Receiver<T>) -> (r: Option<T>) {
    rx.try_recv().ok()
}

/// What the forwarder hands back when a span ends: the upstream source and
/// whether the upstream itself is exhausted (as opposed to the span merely
/// reaching its length).
pub struct SpanReturn<I: Source> {
    source: I,
    upstream_ended: bool,
}

impl<I: Source> SpanReturn<I> {
    /// Every `SpanReturn` in existence carries a well-formed source; the
    /// return channel can only ever deliver what this invariant admits.
    #[verifier::type_invariant]
    pub closed spec fn inv(self) -> bool {
        self.source.wf()
    }

    pub fn into_parts(self) -> (r: (I, bool))
        ensures
            r.0.wf(),
    {
        proof {
            use_type_invariant(&self);
        }
        let SpanReturn { source, upstream_ended } = self;
        (source, upstream_ended)
    }
}

/// The span-bounded forwarder: forwards up to `count` pulls of the owned
/// upstream source, and on exhaustion — the counter reaching zero or the
/// upstream itself ending — hands the upstream back exactly once through
/// the one-shot return channel.
#[verifier::reject_recursive_types(I)]
pub struct SpanSource<I: Source> {
    count: Option<usize>,
    source: Option<I>,
    ret: Option<Sender<SpanReturn<I>>>,
    handed: Ghost<nat>,
    sent: Ghost<Option<I>>,
}

impl<I: Source> SpanSource<I> {
    /// How many times this forwarder has handed its upstream back; the
    /// well-formedness invariant keeps it at one forever after the
    /// hand-back, so a second hand-back cannot happen.
    pub closed spec fn spec_handed(self) -> nat {
        self.handed@
    }

    pub closed spec fn spec_count(self) -> Option<usize> {
        self.count
    }

    /// The upstream source while this forwarder still owns it.
    pub closed spec fn spec_source(self) -> Option<I> {
        self.source
    }

    /// The very value that went into the one-shot return channel, recorded
    /// at the moment of the hand-back; `None` until then.
    pub closed spec fn spec_sent(self) -> Option<I> {
        self.sent@
    }

    pub closed spec fn holds_source(self) -> bool {
        self.source is Some
    }

    pub closed spec fn span_wf(self) -> bool {
        &&& self.source is Some ==> (self.source->0).wf()
        &&& (self.source is Some <==> self.ret is Some)
        &&& self.handed@ == if self.source is Some {
            0nat
        } else {
            1nat
        }
        &&& (self.sent@ is Some <==> self.handed@ == 1)
    }

    /// Wrap `source` for one span of `count` samples (`None`: unbounded,
    /// the rest of the stream), returning the upstream through `ret` when
    /// the span is over.
    pub fn new(source: I, count: Option<usize>, ret: Sender<SpanReturn<I>>) -> (r: SpanSource<I>)
        requires
            source.wf(),
        ensures
            r.wf(),
            r.spec_handed() == 0,
            r.spec_count() == count,
            r.spec_source() == Some(source),
            r.holds_source(),
    {
        SpanSource {
            count,
            source: Some(source),
            ret: Some(ret),
            handed: Ghost(0nat),
            sent: Ghost(Option::<I>::None),
        }
    }

    /// Law: the upstream source is handed back at most once, and the first
    /// call really moves the owned source through the return channel: the
    /// `spec_sent` record equals the source owned before the call. Any
    /// later call finds nothing left to hand back and changes nothing.
    pub fn return_source(&mut self, upstream_ended: bool)
        requires
            old(self).wf(),
        ensures
            final(self).wf(),
            final(self).spec_handed() == 1,
            final(self).spec_count() == old(self).spec_count(),
            old(self).spec_handed() == 1 ==> *final(self) == *old(self),
            old(self).spec_handed() == 0 ==> final(self).spec_sent() == old(self).spec_source(),
    {
        let tx_opt = self.ret.take();
        match tx_opt {
            None => {
            },
            Some(tx) => {
                let src: I = match self.source.take() {
                    Some(s) => s,
                    None => unreached(),
                };
                self.sent = Ghost(Some(src));
                // If the receiver is gone, the whole pipeline is being torn
                // down and the source is dropped with it.
                let _ = channel_send(&tx, SpanReturn { source: src, upstream_ended });
                self.handed = Ghost(1nat);
            },
        }
    }
}

impl<I: Source> Source for SpanSource<I> {
    open spec fn wf(&self) -> bool {
        self.span_wf()
    }

    closed spec fn spec_channels(&self) -> u16 {
        if self.source is Some {
            (self.source->0).spec_channels()
        } else {
            1
        }
    }

    closed spec fn spec_sample_rate(&self) -> u32 {
        if self.source is Some {
            (self.source->0).spec_sample_rate()
        } else {
            DEFAULT_SAMPLE_RATE
        }
    }

    closed spec fn spec_span_len(&self) -> Option<usize> {
        self.count
    }

    /// Forward one pull. A bounded counter goes down by one per forwarded
    /// sample; when it runs out, or when the upstream ends, the upstream
    /// is handed back (exactly once) and every later pull reports
    /// exhaustion. A sample is produced only while the source is still
    /// owned and the span budget is not spent, and no hand-back ever
    /// happens mid-span.
    fn next(&mut self) -> (s: Option<i32>)
        ensures
            final(self).wf(),
            final(self).spec_handed() <= 1,
            old(self).spec_handed() == 1 ==> s is None && *final(self) == *old(self),
            (old(self).spec_handed() == 0 && old(self).spec_count() == Some(0usize)) ==> (s is None
                && final(self).spec_handed() == 1 && final(self).spec_sent() == old(
                self,
            ).spec_source()),
            s is Some ==> (old(self).spec_handed() == 0 && old(self).spec_count() != Some(0usize)),
            (s is Some && old(self).spec_count() is Some) ==> (final(self).spec_count() == Some(
                (old(self).spec_count()->0 - 1) as usize,
            ) && final(self).spec_handed() == (if old(self).spec_count()->0 == 1 {
                1nat
            } else {
                0nat
            })),
            (s is Some && old(self).spec_count() is None) ==> (final(self).spec_count() is None
                && final(self).spec_handed() == 0),
            (s is None && old(self).spec_handed() == 0 && old(self).spec_count() != Some(0usize))
                ==> final(self).spec_handed() == 1,
            (old(self).spec_handed() == 0 && final(self).spec_handed() == 1)
                ==> final(self).spec_sent() is Some,
    {
        if self.source.is_none() {
            return None;
        }
        let do_return_now: bool = match self.count {
            Some(c) => c == 0,
            None => false,
        };
        if do_return_now {
            self.return_source(false);
            return None;
        }
        let mut src: I = match self.source.take() {
            Some(s) => s,
            None => unreached(),
        };
        let s = src.next();
        self.source = Some(src);
        match s {
            Some(x) => {
                match self.count {
                    Some(c) => {
                        self.count = Some(c - 1);
                        if c == 1 {
                            self.return_source(false);
                        }
                    },
                    None => {
                    },
                }
                Some(x)
            },
            None => {
                self.return_source(true);
                None
            },
        }
    }

    fn channels(&self) -> (c: u16) {
        match &self.source {
            Some(s) => s.channels(),
            None => 1,
        }
    }

    fn sample_rate(&self) -> (r: u32) {
        match &self.source {
            Some(s) => s.sample_rate(),
            None => DEFAULT_SAMPLE_RATE,
        }
    }

    /// The forwarder's own span is exactly its remaining counter.
    fn current_span_len(&self) -> (l: Option<usize>) {
        self.count
    }

    fn total_duration(&self) -> (d: Option<u64>) {
        None
    }

    /// A span-bounded forwarder cannot reposition: the span budget is
    /// measured in forwarded pulls.
    fn try_seek(&mut self, pos_micros: u64) -> (r: Result<(), SeekError>)
        ensures
            *final(self) == *old(self),
            r is Err,
    {
        Err(SeekError::NotSupported { underlying_source: "SpanSource" })
    }
}

/// The narrow capability a caller-built sub-graph exposes: accept exactly
/// one span-bounded source as its input.
pub trait Pluggable<I: Source>: Source {
    fn connect(&mut self, source: SpanSource<I>)
        requires
            old(self).wf(),
            source.wf(),
        ensures
            final(self).wf(),
    ;
}

/// The span splicer. Owns, at any instant, either the upstream source
/// (inside the current span's forwarder and sub-graph) or nothing, once
/// the upstream has reported exhaustion and the splicer went terminal.
#[verifier::reject_recursive_types(I)]
#[verifier::reject_recursive_types(P)]
pub struct Spans<I: Source, P: Pluggable<I>, F: Fn() -> P> {
    init: F,
    wrapped: Option<P>,
    source_trigger: Option<Receiver<SpanReturn<I>>>,
    out_channels: u16,
    out_rate: u32,
    factory_calls: Ghost<nat>,
    forwarder: Ghost<Option<SpanSource<I>>>,
}

impl<I: Source, P: Pluggable<I>, F: Fn() -> P> Spans<I, P, F> {
    /// How many sub-graphs the factory has built: exactly one per span
    /// started.
    pub closed spec fn spec_factory_calls(self) -> nat {
        self.factory_calls@
    }

    /// Exhaustion is final: once the upstream ended, nothing is owned and
    /// nothing is produced any more.
    pub closed spec fn spec_terminal(self) -> bool {
        self.wrapped is None
    }

    /// A record of the forwarder most recently handed to a sub-graph
    /// through `connect`: it owns the span's upstream source and carries
    /// the span's budget.
    pub closed spec fn spec_forwarder(self) -> Option<SpanSource<I>> {
        self.forwarder@
    }

    /// The factory must be callable again for every span, and every
    /// sub-graph it builds must come out well formed.
    pub closed spec fn factory_ok(self) -> bool {
        &&& call_requires(self.init, ())
        &&& forall|p: P| call_ensures(self.init, (), p) ==> p.wf()
    }

    pub closed spec fn spans_wf(self) -> bool {
        &&& self.factory_ok()
        &&& self.wrapped is Some ==> (self.wrapped->0).wf()
        &&& (self.wrapped is Some <==> self.source_trigger is Some)
    }

    /// Create the splicer: builds the first sub-graph right away and moves
    /// `input` into a forwarder bounded by the input's current span
    /// length (an unknown length is treated as one unbounded span for the
    /// remainder of the stream).
    pub fn new(input: I, init: F) -> (r: Spans<I, P, F>)
        requires
            input.wf(),
            call_requires(init, ()),
            forall|p: P| call_ensures(init, (), p) ==> p.wf(),
        ensures
            r.wf(),
            !r.spec_terminal(),
            r.spec_factory_calls() == 1,
            r.spec_forwarder() is Some,
            (r.spec_forwarder()->0).spec_source() == Some(input),
            (r.spec_forwarder()->0).spec_count() == input.spec_span_len(),
            (r.spec_forwarder()->0).spec_handed() == 0,
    {
        let out_channels: u16 = input.channels();
        let out_rate: u32 = input.sample_rate();
        let span_len: Option<usize> = input.current_span_len();
        let (tx, rx) = oneshot_channel();
        let fwd: SpanSource<I> = SpanSource::new(input, span_len, tx);
        let ghost fwd_snap = fwd;
        let mut core: P = (init)();
        core.connect(fwd);
        Spans {
            init,
            wrapped: Some(core),
            source_trigger: Some(rx),
            out_channels,
            out_rate,
            factory_calls: Ghost(1nat),
            forwarder: Ghost(Some(fwd_snap)),
        }
    }
}

impl<I: Source, P: Pluggable<I>, F: Fn() -> P> Source for Spans<I, P, F> {
    open spec fn wf(&self) -> bool {
        self.spans_wf()
    }

    closed spec fn spec_channels(&self) -> u16 {
        self.out_channels
    }

    closed spec fn spec_sample_rate(&self) -> u32 {
        self.out_rate
    }

    closed spec fn spec_span_len(&self) -> Option<usize> {
        None
    }

    /// Pull through the current sub-graph. When the sub-graph reports
    /// exhaustion the splicer polls the return channel — never blocking —
    /// and either goes terminal (upstream ended, or nothing came back) or
    /// starts the next span: one fresh factory call, a new forwarder, a
    /// new one-shot channel, and a single equilibrium sample to cover the
    /// gap. Terminal is forever.
    fn next(&mut self) -> (s: Option<i32>)
        ensures
            final(self).wf(),
            old(self).spec_terminal() ==> (s is None && final(self).spec_terminal()
                && final(self).spec_factory_calls() == old(self).spec_factory_calls()),
            final(self).spec_factory_calls() >= old(self).spec_factory_calls(),
            final(self).spec_factory_calls() <= old(self).spec_factory_calls() + 1,
            s is None ==> final(self).spec_terminal(),
            s is Some ==> !final(self).spec_terminal(),
            final(self).spec_factory_calls() == old(self).spec_factory_calls() + 1 ==> (s == Some(
                0i32,
            ) && !final(self).spec_terminal() && final(self).spec_forwarder() is Some
                && (final(self).spec_forwarder()->0).spec_handed() == 0
                && (final(self).spec_forwarder()->0).spec_source() is Some),
            final(self).spec_factory_calls() == old(self).spec_factory_calls()
                ==> final(self).spec_forwarder() == old(self).spec_forwarder(),
    {
        let mut core: P = match self.wrapped.take() {
            Some(c) => c,
            None => {
                return None;
            },
        };
        match core.next() {
            Some(x) => {
                self.wrapped = Some(core);
                Some(x)
            },
            None => {
                let rx: Receiver<SpanReturn<I>> = match self.source_trigger.take() {
                    Some(r) => r,
                    None => unreached(),
                };
                match channel_try_recv(&rx) {
                    None => {
                        // The sub-graph ended without handing the source
                        // back: treat the stream as over.
                        None
                    },
                    Some(ret) => {
                        let (src, upstream_ended) = ret.into_parts();
                        if upstream_ended {
                            None
                        } else {
                            self.out_channels = src.channels();
                            self.out_rate = src.sample_rate();
                            let span_len: Option<usize> = src.current_span_len();
                            let (tx, new_rx) = oneshot_channel();
                            let fwd: SpanSource<I> = SpanSource::new(src, span_len, tx);
                            let ghost fwd_snap = fwd;
                            let mut core2: P = (self.init)();
                            core2.connect(fwd);
                            self.forwarder = Ghost(Some(fwd_snap));
                            self.wrapped = Some(core2);
                            self.source_trigger = Some(new_rx);
                            self.factory_calls = Ghost(self.factory_calls@ + 1);
                            // One equilibrium sample covers the hand-over
                            // gap; blocking here could stall the pull path.
                            Some(0)
                        }
                    },
                }
            },
        }
    }

    fn channels(&self) -> (c: u16) {
        self.out_channels
    }

    fn sample_rate(&self) -> (r: u32) {
        self.out_rate
    }

    /// What lies beyond the current sub-graph is unknown by design.
    fn current_span_len(&self) -> (l: Option<usize>) {
        None
    }

    fn total_duration(&self) -> (d: Option<u64>) {
        None
    }

    /// The splicer cannot reposition: spans are measured in pulls already
    /// handed to sub-graphs.
    fn try_seek(&mut self, pos_micros: u64) -> (r: Result<(), SeekError>)
        ensures
            r is Err,
    {
        Err(SeekError::NotSupported { underlying_source: "Spans" })
    }
}

/// The reference sub-graph: passes its span-bounded input through
/// unchanged. Useful on its own and as the simplest `Pluggable` a span
/// factory can build.
#[verifier::reject_recursive_types(I)]
pub struct Passthrough<I: Source> {
    inner: Option<SpanSource<I>>,
}

impl<I: Source> Passthrough<I> {
    pub closed spec fn pt_wf(self) -> bool {
        self.inner is Some ==> (self.inner->0).wf()
    }

    /// The connected span-bounded forwarder, once `connect` ran.
    pub closed spec fn spec_forwarder(self) -> Option<SpanSource<I>> {
        self.inner
    }

    pub fn new() -> (r: Passthrough<I>)
        ensures
            r.wf(),
    {
        Passthrough { inner: None }
    }
}

impl<I: Source> Source for Passthrough<I> {
    open spec fn wf(&self) -> bool {
        self.pt_wf()
    }

    closed spec fn spec_channels(&self) -> u16 {
        if self.inner is Some {
            (self.inner->0).spec_channels()
        } else {
            1
        }
    }

    closed spec fn spec_sample_rate(&self) -> u32 {
        if self.inner is Some {
            (self.inner->0).spec_sample_rate()
        } else {
            DEFAULT_SAMPLE_RATE
        }
    }

    closed spec fn spec_span_len(&self) -> Option<usize> {
        if self.inner is Some {
            (self.inner->0).spec_span_len()
        } else {
            None
        }
    }

    /// One pull, handed straight to the connected forwarder: the clauses
    /// of `SpanSource::next` transpose to this sub-graph unchanged.
    fn next(&mut self) -> (s: Option<i32>)
        ensures
            final(self).wf(),
            old(self).spec_forwarder() is None ==> (s is None && *final(self) == *old(self)),
            old(self).spec_forwarder() is Some ==> final(self).spec_forwarder() is Some,
            s is Some ==> (old(self).spec_forwarder() is Some
                && (old(self).spec_forwarder()->0).spec_handed() == 0
                && (old(self).spec_forwarder()->0).spec_count() != Some(0usize)),
            (s is Some && old(self).spec_forwarder() is Some
                && (old(self).spec_forwarder()->0).spec_count() is Some)
                ==> (final(self).spec_forwarder()->0).spec_count()
                == Some(((old(self).spec_forwarder()->0).spec_count()->0 - 1) as usize),
            (s is None && old(self).spec_forwarder() is Some
                && (old(self).spec_forwarder()->0).spec_handed() == 0
                && (old(self).spec_forwarder()->0).spec_count() != Some(0usize))
                ==> (final(self).spec_forwarder()->0).spec_handed() == 1,
    {
        let mut src: SpanSource<I> = match self.inner.take() {
            Some(s) => s,
            None => {
                return None;
            },
        };
        let s = src.next();
        self.inner = Some(src);
        s
    }

    fn channels(&self) -> (c: u16) {
        match &self.inner {
            Some(s) => s.channels(),
            None => 1,
        }
    }

    fn sample_rate(&self) -> (r: u32) {
        match &self.inner {
            Some(s) => s.sample_rate(),
            None => DEFAULT_SAMPLE_RATE,
        }
    }

    fn current_span_len(&self) -> (l: Option<usize>) {
        match &self.inner {
            Some(s) => s.current_span_len(),
            None => None,
        }
    }

    fn total_duration(&self) -> (d: Option<u64>) {
        None
    }

    fn try_seek(&mut self, pos_micros: u64) -> (r: Result<(), SeekError>)
        ensures
            r is Err,
    {
        Err(SeekError::NotSupported { underlying_source: "Passthrough" })
    }
}

impl<I: Source> Pluggable<I> for Passthrough<I> {
    fn connect(&mut self, source: SpanSource<I>) {
        self.inner = Some(source);
    }
}

} // verus!
