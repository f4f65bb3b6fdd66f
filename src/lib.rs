//! Waveform summaries of decoded audio: the decoded samples of one channel are grouped into a
//! fixed number of time buckets, sized from the track's metadata before decoding starts, and
//! each bucket is reduced to an amplitude envelope.

pub mod amplitude;
pub mod driver;
pub mod error;
pub mod mode;
pub mod plan;
pub mod session;
pub mod track;
pub mod waveform;
