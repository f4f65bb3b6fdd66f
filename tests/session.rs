use audiowave::amplitude::AmplitudeMinMax;
use audiowave::driver::{DecodeEvent, PacketEvent, Step};
use audiowave::error::WaveformError;
use audiowave::plan::plan_buckets;
use audiowave::session::MinMaxRun;

fn bits(samples: &[f32]) -> Vec<u32> {
    samples.iter().map(|s| s.to_bits()).collect()
}

fn floats(w: &[AmplitudeMinMax]) -> Vec<(f32, f32)> {
    w.iter().map(|a| (f32::from_bits(a.min), f32::from_bits(a.max))).collect()
}

fn packet(track_id: u32, ts: u64) -> PacketEvent {
    PacketEvent::Packet { track_id, ts }
}

#[test]
fn corrupt_packet_mid_stream_does_not_abort() {
    // 8 Hz, 12 frames, 2 points per second: buckets of 4 samples, 3 buckets.
    let plan = plan_buckets(8, 12, 2).unwrap();
    let mut run = MinMaxRun::new(plan, 1);
    assert_eq!(run.packet(packet(1, 0)), Step::Decode);
    assert_eq!(run.decoded(DecodeEvent::Samples, &bits(&[0.5, -0.5, 0.25, 0.1])), Step::Feed);
    assert_eq!(run.packet(packet(1, 4)), Step::Decode);
    assert_eq!(run.decoded(DecodeEvent::CorruptData, &vec![]), Step::Skip);
    assert_eq!(run.packet(packet(2, 4)), Step::Skip);
    assert_eq!(run.packet(packet(1, 8)), Step::Decode);
    assert_eq!(run.decoded(DecodeEvent::Samples, &bits(&[-0.75, 0.9])), Step::Feed);
    assert_eq!(run.packet(PacketEvent::EndOfStream), Step::Finish);
    let w = run.finish();
    assert_eq!(floats(&w), vec![(-0.5, 0.5), (0.0, 0.0), (-0.75, 0.9)]);
}

#[test]
fn transient_read_error_is_skipped() {
    let plan = plan_buckets(8, 8, 1).unwrap();
    let mut run = MinMaxRun::new(plan, 7);
    assert_eq!(run.packet(packet(7, 0)), Step::Decode);
    assert_eq!(run.decoded(DecodeEvent::TransientIo, &bits(&[0.9])), Step::Skip);
    assert_eq!(run.packet(packet(7, 4)), Step::Decode);
    assert_eq!(run.decoded(DecodeEvent::Samples, &bits(&[0.3])), Step::Feed);
    assert_eq!(floats(&run.finish()), vec![(0.0, 0.3)]);
}

#[test]
fn unsupported_format_fails_after_fed_packets() {
    let plan = plan_buckets(8, 16, 1).unwrap();
    let mut run = MinMaxRun::new(plan, 1);
    assert_eq!(run.packet(packet(1, 0)), Step::Decode);
    assert_eq!(run.decoded(DecodeEvent::Samples, &bits(&[0.5, 0.6])), Step::Feed);
    assert_eq!(run.packet(packet(1, 2)), Step::Decode);
    assert_eq!(
        run.decoded(DecodeEvent::OtherFormat, &vec![]),
        Step::Fail(WaveformError::UnsupportedSampleFormat)
    );
}

#[test]
fn reset_and_demuxer_errors_fail() {
    let plan = plan_buckets(8, 16, 1).unwrap();
    let mut run = MinMaxRun::new(plan, 1);
    assert_eq!(run.packet(PacketEvent::ResetRequired), Step::Fail(WaveformError::Unimplemented));
    let mut run = MinMaxRun::new(plan, 1);
    assert_eq!(
        run.packet(PacketEvent::Failed { cause: "limit reached".to_string() }),
        Step::Fail(WaveformError::FatalDecodeError { cause: "limit reached".to_string() })
    );
}

#[test]
fn samples_past_planned_frames_are_dropped() {
    // The metadata under-reports the frames: 4 planned, 6 decoded.
    let plan = plan_buckets(4, 4, 2).unwrap();
    let mut run = MinMaxRun::new(plan, 1);
    assert_eq!(run.packet(packet(1, 0)), Step::Decode);
    assert_eq!(run.decoded(DecodeEvent::Samples, &bits(&[0.1, 0.2, -0.3, 0.4, 0.9, -0.9])), Step::Feed);
    let w = run.finish();
    assert_eq!(w.len(), 2);
    assert_eq!(floats(&w), vec![(0.0, 0.2), (-0.3, 0.4)]);
}

#[test]
fn nothing_decoded_gives_empty_points() {
    let plan = plan_buckets(8000, 24000, 1).unwrap();
    let mut run = MinMaxRun::new(plan, 1);
    assert_eq!(run.packet(PacketEvent::EndOfStream), Step::Finish);
    assert_eq!(floats(&run.finish()), vec![(0.0, 0.0); 3]);
}
