use vstd::prelude::*;

use crate::amplitude::AmplitudeMinMax;
use crate::error::WaveformError;
use crate::plan::BucketPlan;
use crate::plan::planned_count;
use crate::waveform::{
    empty_point, empty_waveform, fed_packet, lemma_fed_packet_frame, misses_bucket,
};

verus! {

/// What the demuxer yielded when asked for the next packet.
#[derive(Debug, Clone, PartialEq, Eq)]
pub enum PacketEvent {
    /// A packet of track `track_id` whose first sample sits at absolute position `ts`.
    Packet { track_id: u32, ts: u64 },
    /// The stream is exhausted (the demuxer hit the end of its input).
    EndOfStream,
    /// The container changed its track list.
    ResetRequired,
    /// Any other demuxer error.
    Failed { cause: String },
}

/// What decoding a packet of the selected track gave.
#[derive(Debug, Clone, PartialEq, Eq)]
pub enum DecodeEvent {
    /// A buffer of 32-bit float samples.
    Samples,
    /// A buffer in any other sample format.
    OtherFormat,
    /// The packet could not be read.
    TransientIo,
    /// The packet holds invalid data.
    CorruptData,
    /// Any other decoder error.
    Failed { cause: String },
}

/// What the decode loop does next.
#[derive(Debug, Clone, PartialEq, Eq)]
pub enum Step {
    /// Decode the packet just read.
    Decode,
    /// Feed the decoded channel samples to their buckets, then read the next packet.
    Feed,
    /// Drop this packet and read the next one.
    Skip,
    /// Stop reading; the waveform is complete.
    Finish,
    /// Abort the request with this error.
    Fail(WaveformError),
}

pub open spec fn packet_step(track_id: u32, event: PacketEvent) -> Step {
    match event {
        PacketEvent::Packet { track_id: id, ts } => if id == track_id {
            Step::Decode
        } else {
            Step::Skip
        },
        PacketEvent::EndOfStream => Step::Finish,
        PacketEvent::ResetRequired => Step::Fail(WaveformError::Unimplemented),
        PacketEvent::Failed { cause } => Step::Fail(WaveformError::FatalDecodeError { cause }),
    }
}

pub open spec fn decode_step(event: DecodeEvent) -> Step {
    match event {
        DecodeEvent::Samples => Step::Feed,
        DecodeEvent::OtherFormat => Step::Fail(WaveformError::UnsupportedSampleFormat),
        DecodeEvent::TransientIo => Step::Skip,
        DecodeEvent::CorruptData => Step::Skip,
        DecodeEvent::Failed { cause } => Step::Fail(WaveformError::FatalDecodeError { cause }),
    }
}

/// Classifies what the demuxer yielded: packets of other tracks are skipped, the end of the
/// stream completes the waveform, and a track-list change or any other error aborts.
pub fn on_packet(track_id: u32, event: PacketEvent) -> (r: Step)
    ensures
        r == packet_step(track_id, event),
{
    match event {
        PacketEvent::Packet { track_id: id, ts } => if id == track_id {
            Step::Decode
        } else {
            Step::Skip
        },
        PacketEvent::EndOfStream => Step::Finish,
        PacketEvent::ResetRequired => Step::Fail(WaveformError::Unimplemented),
        PacketEvent::Failed { cause } => Step::Fail(WaveformError::FatalDecodeError { cause }),
    }
}

/// Classifies the outcome of decoding one packet: float samples are fed, a packet that could
/// not be read or holds invalid data is skipped, and any other format or error aborts.
pub fn on_decoded(event: DecodeEvent) -> (r: Step)
    ensures
        r == decode_step(event),
{
    match event {
        DecodeEvent::Samples => Step::Feed,
        DecodeEvent::OtherFormat => Step::Fail(WaveformError::UnsupportedSampleFormat),
        DecodeEvent::TransientIo => Step::Skip,
        DecodeEvent::CorruptData => Step::Skip,
        DecodeEvent::Failed { cause } => Step::Fail(WaveformError::FatalDecodeError { cause }),
    }
}

/// One turn of the decode loop: the demuxer's event, the decoder's event for that packet,
/// and the channel samples it decoded.
pub type Turn = (PacketEvent, DecodeEvent, Seq<u32>);

/// The first sample position of a packet event (zero for events that carry no packet).
pub open spec fn packet_ts(event: PacketEvent) -> int {
    match event {
        PacketEvent::Packet { ts, .. } => ts as int,
        _ => 0,
    }
}

/// The outcome of the decode loop over `turns`, starting from the envelopes `w`. The loop
/// also ends, with what it has, where the turns run out.
pub open spec fn run(
    w: Seq<AmplitudeMinMax>,
    plan: BucketPlan,
    track_id: u32,
    turns: Seq<Turn>,
) -> Result<Seq<AmplitudeMinMax>, WaveformError>
    decreases turns.len(),
{
    if turns.len() == 0 {
        Ok(w)
    } else {
        let (packet, decoded, samples) = turns[0];
        let rest = turns.skip(1);
        match packet_step(track_id, packet) {
            Step::Decode => match decode_step(decoded) {
                Step::Feed => run(
                    fed_packet(w, plan, packet_ts(packet), samples),
                    plan,
                    track_id,
                    rest,
                ),
                Step::Fail(e) => Err(e),
                _ => run(w, plan, track_id, rest),
            },
            Step::Fail(e) => Err(e),
            Step::Finish => Ok(w),
            _ => run(w, plan, track_id, rest),
        }
    }
}

} // verus!

verus! {

/// A turn after which the loop reads another packet: one of another track, or one of the
/// selected track whose decoding was fed or skipped.
pub open spec fn continues(track_id: u32, turn: Turn) -> bool {
    match packet_step(track_id, turn.0) {
        Step::Skip => true,
        Step::Decode => decode_step(turn.1) == Step::Feed || decode_step(turn.1) == Step::Skip,
        _ => false,
    }
}

proof fn lemma_run_frame(
    w: Seq<AmplitudeMinMax>,
    plan: BucketPlan,
    track_id: u32,
    turns: Seq<Turn>,
    b: int,
)
    requires
        plan.wf(),
        w.len() == plan.bucket_count,
    ensures
        run(w, plan, track_id, turns) matches Ok(v) ==> v.len() == w.len(),
        run(w, plan, track_id, turns) matches Ok(v) ==> (0 <= b < w.len() && (forall|k: int|
            0 <= k < turns.len() ==> misses_bucket(plan, b, packet_ts(turns[k].0), #[trigger] turns[k].2))
            ==> v[b] == w[b]),
    decreases turns.len(),
{
    if turns.len() > 0 {
        let (packet, decoded, samples) = turns[0];
        let rest = turns.skip(1);
        let ts = packet_ts(packet);
        assert(ts >= 0);
        lemma_fed_packet_frame(w, plan, ts, samples, b);
        let fw = fed_packet(w, plan, ts, samples);
        lemma_run_frame(w, plan, track_id, rest, b);
        lemma_run_frame(fw, plan, track_id, rest, b);
        if 0 <= b < w.len() && (forall|k: int|
            0 <= k < turns.len() ==> misses_bucket(plan, b, packet_ts(turns[k].0), #[trigger] turns[k].2)) {
            assert(misses_bucket(plan, b, packet_ts(turns[0].0), turns[0].2));
            assert forall|k: int| 0 <= k < rest.len() implies misses_bucket(
                plan,
                b,
                packet_ts(rest[k].0),
                #[trigger] rest[k].2,
            ) by {
                assert(rest[k] == turns[k + 1]);
                assert(misses_bucket(plan, b, packet_ts(turns[k + 1].0), turns[k + 1].2));
            }
        }
    }
}

/// The waveform that the loop returns has exactly the planned number of points, whatever
/// the packets were and however many of them decoded.
pub proof fn law_length_is_planned(
    sample_rate: u32,
    total_frames: u64,
    points_per_sec: u64,
    plan: BucketPlan,
    track_id: u32,
    turns: Seq<Turn>,
)
    requires
        plan.wf(),
        plan.bucket_count == planned_count(
            sample_rate as int,
            total_frames as int,
            points_per_sec as int,
        ),
    ensures
        run(empty_waveform(plan.bucket_count as nat), plan, track_id, turns) matches Ok(v)
            ==> v.len() == planned_count(
            sample_rate as int,
            total_frames as int,
            points_per_sec as int,
        ),
{
    lemma_run_frame(empty_waveform(plan.bucket_count as nat), plan, track_id, turns, 0);
}

/// A bucket in which no decoded sample falls ends as the empty envelope `{0.0, 0.0}`.
pub proof fn law_unfed_bucket_is_empty(plan: BucketPlan, track_id: u32, turns: Seq<Turn>, b: int)
    requires
        plan.wf(),
        0 <= b < plan.bucket_count,
        forall|k: int|
            0 <= k < turns.len() ==> misses_bucket(plan, b, packet_ts(turns[k].0), #[trigger] turns[k].2),
    ensures
        run(empty_waveform(plan.bucket_count as nat), plan, track_id, turns) matches Ok(v) ==> v[b]
            == empty_point(),
{
    lemma_run_frame(empty_waveform(plan.bucket_count as nat), plan, track_id, turns, b);
}

/// A packet of the selected track that fails to decode for a transient read error or for
/// invalid data changes nothing: the loop goes on to the packets after it as if it had not
/// been there.
pub proof fn law_bad_packet_is_skipped(
    w: Seq<AmplitudeMinMax>,
    plan: BucketPlan,
    track_id: u32,
    before: Seq<Turn>,
    bad: Turn,
    after: Seq<Turn>,
)
    requires
        bad.0 matches PacketEvent::Packet { track_id: id, .. } && id == track_id,
        bad.1 == DecodeEvent::CorruptData || bad.1 == DecodeEvent::TransientIo,
    ensures
        run(w, plan, track_id, before.push(bad) + after) == run(w, plan, track_id, before + after),
    decreases before.len(),
{
    let all = before.push(bad) + after;
    if before.len() == 0 {
        assert(all.skip(1) =~= after);
        assert(before + after =~= after);
    } else {
        let (packet, decoded, samples) = before[0];
        let fw = fed_packet(w, plan, packet_ts(packet), samples);
        let tail = before.skip(1);
        assert(all.skip(1) =~= tail.push(bad) + after);
        assert((before + after).skip(1) =~= tail + after);
        assert(all[0] == before[0]);
        assert((before + after)[0] == before[0]);
        law_bad_packet_is_skipped(w, plan, track_id, tail, bad, after);
        law_bad_packet_is_skipped(fw, plan, track_id, tail, bad, after);
    }
}

/// A packet of the selected track that decodes to a sample format other than 32-bit float
/// fails the whole run, whatever was fed before it.
pub proof fn law_other_format_fails(
    w: Seq<AmplitudeMinMax>,
    plan: BucketPlan,
    track_id: u32,
    before: Seq<Turn>,
    bad: Turn,
    after: Seq<Turn>,
)
    requires
        forall|k: int| 0 <= k < before.len() ==> continues(track_id, #[trigger] before[k]),
        bad.0 matches PacketEvent::Packet { track_id: id, .. } && id == track_id,
        bad.1 == DecodeEvent::OtherFormat,
    ensures
        run(w, plan, track_id, before.push(bad) + after) == Err::<Seq<AmplitudeMinMax>, WaveformError>(
            WaveformError::UnsupportedSampleFormat,
        ),
    decreases before.len(),
{
    let all = before.push(bad) + after;
    if before.len() == 0 {
        assert(all[0] == bad);
    } else {
        let (packet, decoded, samples) = before[0];
        let fw = fed_packet(w, plan, packet_ts(packet), samples);
        let tail = before.skip(1);
        assert(all.skip(1) =~= tail.push(bad) + after);
        assert(all[0] == before[0]);
        assert(continues(track_id, before[0]));
        assert forall|k: int| 0 <= k < tail.len() implies continues(track_id, #[trigger] tail[k]) by {
            assert(tail[k] == before[k + 1]);
        }
        law_other_format_fails(w, plan, track_id, tail, bad, after);
        law_other_format_fails(fw, plan, track_id, tail, bad, after);
    }
}

} // verus!
