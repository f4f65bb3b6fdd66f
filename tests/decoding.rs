use audiowave::driver::{on_decoded, on_packet, DecodeEvent, PacketEvent, Step};
use audiowave::error::WaveformError;
use audiowave::mode::WaveMode;
use audiowave::plan::{plan_buckets, BucketPlan};
use audiowave::track::{select_track, TrackCandidate, TrackInfo};
use audiowave::waveform::{feed_min_max, new_min_max_waveform};

fn bits(samples: &[f32]) -> Vec<u32> {
    samples.iter().map(|s| s.to_bits()).collect()
}

fn floats(w: &[audiowave::amplitude::AmplitudeMinMax]) -> Vec<(f32, f32)> {
    w.iter().map(|a| (f32::from_bits(a.min), f32::from_bits(a.max))).collect()
}

#[test]
fn new_waveform_has_one_empty_point_per_bucket() {
    let plan = plan_buckets(8000, 8000, 4).unwrap();
    let w = new_min_max_waveform(&plan);
    assert_eq!(w.len(), 4);
    assert!(floats(&w).iter().all(|p| *p == (0.0, 0.0)));
}

#[test]
fn packet_spreads_over_buckets_and_drops_overflow() {
    let plan = BucketPlan { samples_per_bucket: 2, bucket_count: 3 };
    let mut w = new_min_max_waveform(&plan);
    feed_min_max(&mut w, &plan, 1, &bits(&[0.5, -0.25, 0.75, -1.0, 0.1, 0.9, 0.3]));
    assert_eq!(w.len(), 3);
    // positions 1..7: bucket 0 <- 0.5; bucket 1 <- -0.25, 0.75; bucket 2 <- -1.0, 0.1; 0.9 and 0.3 dropped
    assert_eq!(floats(&w), vec![(0.0, 0.5), (-0.25, 0.75), (-1.0, 0.1)]);
}

#[test]
fn unfed_bucket_stays_empty() {
    let plan = BucketPlan { samples_per_bucket: 4, bucket_count: 3 };
    let mut w = new_min_max_waveform(&plan);
    feed_min_max(&mut w, &plan, 0, &bits(&[0.5, -0.5]));
    feed_min_max(&mut w, &plan, 8, &bits(&[0.25]));
    assert_eq!(floats(&w), vec![(-0.5, 0.5), (0.0, 0.0), (0.0, 0.25)]);
}

#[test]
fn same_input_gives_identical_output() {
    let plan = plan_buckets(8, 20, 2).unwrap();
    let packets: Vec<(u64, Vec<u32>)> =
        vec![(0, bits(&[0.1, -0.2, 0.3, 0.4])), (4, bits(&[-0.9, 0.9, 0.0, 0.5, 0.6])), (16, bits(&[0.7]))];
    let run = || {
        let mut w = new_min_max_waveform(&plan);
        for (ts, s) in &packets {
            feed_min_max(&mut w, &plan, *ts, s);
        }
        w
    };
    let first = run();
    let second = run();
    assert_eq!(first, second);
    assert_eq!(first.len(), plan.bucket_count);
}

#[test]
fn packet_steps() {
    assert_eq!(on_packet(3, PacketEvent::Packet { track_id: 3, ts: 10 }), Step::Decode);
    assert_eq!(on_packet(3, PacketEvent::Packet { track_id: 4, ts: 10 }), Step::Skip);
    assert_eq!(on_packet(3, PacketEvent::EndOfStream), Step::Finish);
    assert_eq!(on_packet(3, PacketEvent::ResetRequired), Step::Fail(WaveformError::Unimplemented));
    assert_eq!(
        on_packet(3, PacketEvent::Failed { cause: "bad header".to_string() }),
        Step::Fail(WaveformError::FatalDecodeError { cause: "bad header".to_string() })
    );
}

#[test]
fn corrupt_packet_is_skipped() {
    assert_eq!(on_decoded(DecodeEvent::CorruptData), Step::Skip);
    assert_eq!(on_decoded(DecodeEvent::TransientIo), Step::Skip);
    assert_eq!(on_decoded(DecodeEvent::Samples), Step::Feed);
}

#[test]
fn other_sample_format_fails() {
    assert_eq!(on_decoded(DecodeEvent::OtherFormat), Step::Fail(WaveformError::UnsupportedSampleFormat));
    assert_eq!(
        on_decoded(DecodeEvent::Failed { cause: "limit".to_string() }),
        Step::Fail(WaveformError::FatalDecodeError { cause: "limit".to_string() })
    );
}

fn candidate(id: u32, known_codec: bool, sample_rate: Option<u32>, n_frames: Option<u64>) -> TrackCandidate {
    TrackCandidate { id, known_codec, sample_rate, n_frames }
}

#[test]
fn first_known_track_is_selected() {
    let tracks = vec![
        candidate(1, false, Some(8000), Some(10)),
        candidate(2, true, Some(44100), Some(441000)),
        candidate(3, true, Some(48000), Some(48000)),
    ];
    assert_eq!(
        select_track(&tracks),
        Ok(TrackInfo { track_id: 2, sample_rate: 44100, total_frames: 441000 })
    );
}

#[test]
fn no_known_track_is_unsupported() {
    assert_eq!(select_track(&vec![]), Err(WaveformError::UnsupportedTrack));
    assert_eq!(
        select_track(&vec![candidate(1, false, Some(8000), Some(10))]),
        Err(WaveformError::UnsupportedTrack)
    );
}

#[test]
fn missing_metadata_is_reported() {
    assert_eq!(select_track(&vec![candidate(1, true, None, Some(10))]), Err(WaveformError::MissingMetadata));
    assert_eq!(select_track(&vec![candidate(1, true, Some(8000), None)]), Err(WaveformError::MissingMetadata));
    assert_eq!(select_track(&vec![candidate(1, true, Some(0), Some(10))]), Err(WaveformError::MissingMetadata));
    // A later complete track does not stand in for the first known one.
    assert_eq!(
        select_track(&vec![candidate(1, true, None, None), candidate(2, true, Some(8000), Some(8000))]),
        Err(WaveformError::MissingMetadata)
    );
}

#[test]
fn mode_names() {
    assert_eq!(WaveMode::parse("AVERAGE"), Some(WaveMode::Average));
    assert_eq!(WaveMode::parse("MIN_MAX"), Some(WaveMode::MinMax));
    assert_eq!(WaveMode::parse("average"), None);
    assert_eq!(WaveMode::parse("MIN_MAXX"), None);
    assert_eq!(WaveMode::parse(""), None);
}
