use vstd::prelude::*;

verus! {

/// Why a waveform could not be computed. Every variant is fatal for the request.
#[derive(Debug, Clone, PartialEq, Eq)]
pub enum WaveformError {
    /// The requested point density is zero, or asks for more buckets than memory can index.
    InvalidParameter,
    /// The probed container holds no track with a known codec.
    UnsupportedTrack,
    /// The selected track lacks a usable sample rate or frame count.
    MissingMetadata,
    /// The container asked for its track list to be re-read, which is not supported.
    Unimplemented,
    /// A packet decoded to a sample format other than 32-bit float.
    UnsupportedSampleFormat,
    /// The demuxer or decoder failed in a way that cannot be skipped over.
    FatalDecodeError { cause: String },
}

} // verus!
