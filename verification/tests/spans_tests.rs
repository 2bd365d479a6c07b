use std::cell::Cell;
use std::rc::Rc;

use rodio::segmented::{SegmentedSource, SEGMENT_SAMPLE};
use rodio::source::Source;
use rodio::spans::{Passthrough, Spans};

#[test]
fn splicer_builds_one_subgraph_per_span() {
    // Spans of lengths 100 and 50, then an unknown-length tail: the factory
    // must run exactly three times, once per span.
    let calls = Rc::new(Cell::new(0u32));
    let c = calls.clone();
    let upstream = SegmentedSource::new(vec![100, 50], 30);
    let mut spliced = Spans::new(upstream, move || {
        c.set(c.get() + 1);
        Passthrough::<SegmentedSource>::new()
    });
    assert_eq!(calls.get(), 1);

    let mut real = 0u32;
    let mut filler = 0u32;
    loop {
        match spliced.next() {
            None => break,
            Some(s) if s == SEGMENT_SAMPLE => real += 1,
            Some(0) => filler += 1,
            Some(other) => panic!("unexpected sample {other}"),
        }
    }
    assert_eq!(calls.get(), 3);
    assert_eq!(real, 180);
    // One equilibrium sample per hand-over gap, and never more.
    assert_eq!(filler, 2);
    // Terminal is forever.
    assert_eq!(spliced.next(), None);
    assert_eq!(spliced.next(), None);
}

#[test]
fn splicer_with_single_unbounded_span() {
    // An upstream that never declares a boundary is one unbounded span:
    // the factory runs once and exhaustion passes straight through.
    let calls = Rc::new(Cell::new(0u32));
    let c = calls.clone();
    let upstream = SegmentedSource::new(Vec::new(), 25);
    let mut spliced = Spans::new(upstream, move || {
        c.set(c.get() + 1);
        Passthrough::<SegmentedSource>::new()
    });
    let mut n = 0u32;
    while spliced.next().is_some() {
        n += 1;
    }
    assert_eq!(n, 25);
    assert_eq!(calls.get(), 1);
    assert_eq!(spliced.next(), None);
}

#[test]
fn splicer_metadata_comes_from_upstream() {
    let upstream = SegmentedSource::new(vec![10], 0);
    let spliced = Spans::new(upstream, || Passthrough::<SegmentedSource>::new());
    assert_eq!(spliced.channels(), 1);
    assert_eq!(spliced.sample_rate(), 44100);
    assert_eq!(spliced.current_span_len(), None);
}

#[test]
fn splicer_refuses_to_seek() {
    let upstream = SegmentedSource::new(vec![10], 0);
    let mut spliced = Spans::new(upstream, || Passthrough::<SegmentedSource>::new());
    assert!(spliced.try_seek(0).is_err());
}
