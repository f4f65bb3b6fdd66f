use vstd::prelude::*;

use crate::error::WaveformError;

verus! {

/// What the probe reports of one track of the container.
#[derive(Debug, Clone, Copy, PartialEq, Eq)]
pub struct TrackCandidate {
    pub id: u32,
    /// False where the codec is the null (unknown) codec.
    pub known_codec: bool,
    pub sample_rate: Option<u32>,
    pub n_frames: Option<u64>,
}

/// The track whose samples are summarised.
#[derive(Debug, Clone, Copy, PartialEq, Eq)]
pub struct TrackInfo {
    pub track_id: u32,
    pub sample_rate: u32,
    pub total_frames: u64,
}

impl TrackInfo {
    pub open spec fn wf(&self) -> bool {
        self.sample_rate > 0
    }
}

/// `k` is the first track with a known codec.
pub open spec fn is_first_known(tracks: Seq<TrackCandidate>, k: int) -> bool {
    &&& 0 <= k < tracks.len()
    &&& tracks[k].known_codec
    &&& forall|j: int| 0 <= j < k ==> !(#[trigger] tracks[j]).known_codec
}

/// The outcome of selecting `c`: its metadata, or `MissingMetadata` where the sample rate
/// is absent or zero, or the frame count is absent.
pub open spec fn inspected(c: TrackCandidate) -> Result<TrackInfo, WaveformError> {
    match (c.sample_rate, c.n_frames) {
        (Some(rate), Some(frames)) => if rate > 0 {
            Ok(TrackInfo { track_id: c.id, sample_rate: rate, total_frames: frames })
        } else {
            Err(WaveformError::MissingMetadata)
        },
        _ => Err(WaveformError::MissingMetadata),
    }
}

/// Picks the first track with a known codec and reads its sample rate and frame count.
pub fn select_track(tracks: &Vec<TrackCandidate>) -> (r: Result<TrackInfo, WaveformError>)
    ensures
        (forall|i: int| 0 <= i < tracks.len() ==> !(#[trigger] tracks@[i]).known_codec) ==> r
            == Err::<TrackInfo, WaveformError>(WaveformError::UnsupportedTrack),
        forall|k: int| is_first_known(tracks@, k) ==> r == inspected(#[trigger] tracks@[k]),
        r matches Ok(info) ==> info.wf(),
{
    let mut i: usize = 0;
    while i < tracks.len()
        invariant
            i <= tracks.len(),
            forall|j: int| 0 <= j < i ==> !(#[trigger] tracks@[j]).known_codec,
        decreases tracks.len() - i,
    {
        let c = tracks[i];
        if c.known_codec {
            proof {
                assert forall|k: int| is_first_known(tracks@, k) implies k == i by {
                    if k < i {
                        assert(!tracks@[k].known_codec);
                    } else if k > i {
                        assert(!tracks@[i as int].known_codec);
                    }
                }
            }
            return match (c.sample_rate, c.n_frames) {
                (Some(rate), Some(frames)) => if rate > 0 {
                    Ok(TrackInfo { track_id: c.id, sample_rate: rate, total_frames: frames })
                } else {
                    Err(WaveformError::MissingMetadata)
                },
                _ => Err(WaveformError::MissingMetadata),
            };
        }
        i += 1;
    }
    proof {
        assert forall|k: int| is_first_known(tracks@, k) implies false by {
            assert(!tracks@[k].known_codec);
        }
    }
    Err(WaveformError::UnsupportedTrack)
}

} // verus!
