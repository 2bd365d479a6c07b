//! A pull-based audio streaming library: a `Source` capability contract,
//! a WAV producer that decodes a random-access byte resource, control
//! combinators (completion signaling, periodic inspection, adaptive gain),
//! and a span splicer that hands a live source to caller-built sub-graphs
//! one span at a time.

pub mod agc;
pub mod empty_callback;
pub mod periodic;
pub mod sample;
pub mod segmented;
pub mod source;
pub mod spans;
pub mod wav;
