use vstd::prelude::*;

use crate::amplitude::AmplitudeMinMax;
use crate::plan::BucketPlan;

verus! {

/// The waveform after one sample at absolute position `pos` is consumed; a sample outside
/// the plan leaves it as it was.
pub open spec fn fed(
    w: Seq<AmplitudeMinMax>,
    plan: BucketPlan,
    pos: int,
    sample: u32,
) -> Seq<AmplitudeMinMax> {
    match plan.index_of(pos) {
        Some(b) => w.update(b, w[b].added(sample)),
        None => w,
    }
}

/// The waveform after the samples of one packet, the first at position `ts`, are consumed
/// in order.
pub open spec fn fed_packet(
    w: Seq<AmplitudeMinMax>,
    plan: BucketPlan,
    ts: int,
    samples: Seq<u32>,
) -> Seq<AmplitudeMinMax>
    decreases samples.len(),
{
    if samples.len() == 0 {
        w
    } else {
        fed(
            fed_packet(w, plan, ts, samples.drop_last()),
            plan,
            ts + samples.len() - 1,
            samples.last(),
        )
    }
}

/// The envelope of an empty bucket: `0.0` for both ends.
pub open spec fn empty_point() -> AmplitudeMinMax {
    AmplitudeMinMax { min: 0, max: 0 }
}

/// `n` empty buckets.
pub open spec fn empty_waveform(n: nat) -> Seq<AmplitudeMinMax> {
    Seq::new(n, |i: int| empty_point())
}

/// One empty envelope per bucket of the plan.
pub fn new_min_max_waveform(plan: &BucketPlan) -> (r: Vec<AmplitudeMinMax>)
    ensures
        r@ == empty_waveform(plan.bucket_count as nat),
{
    let mut r: Vec<AmplitudeMinMax> = Vec::with_capacity(plan.bucket_count);
    let mut i: usize = 0;
    while i < plan.bucket_count
        invariant
            i <= plan.bucket_count,
            r@ == empty_waveform(i as nat),
        decreases plan.bucket_count - i,
    {
        r.push(AmplitudeMinMax::new());
        i += 1;
        assert(r@ =~= empty_waveform(i as nat));
    }
    r
}

/// Folds the channel samples of one decoded packet, whose first sample sits at absolute
/// position `ts`, into the buckets they fall in. Samples past the last bucket are dropped.
pub fn feed_min_max(
    waveform: &mut Vec<AmplitudeMinMax>,
    plan: &BucketPlan,
    ts: u64,
    samples: &Vec<u32>,
)
    requires
        plan.wf(),
        old(waveform).len() == plan.bucket_count,
    ensures
        final(waveform)@ == fed_packet(old(waveform)@, *plan, ts as int, samples@),
{
    let ghost start = waveform@;
    let mut i: usize = 0;
    while i < samples.len()
        invariant
            plan.wf(),
            i <= samples.len(),
            waveform.len() == plan.bucket_count,
            waveform@ == fed_packet(start, *plan, ts as int, samples@.take(i as int)),
        decreases samples.len() - i,
    {
        let ghost before = waveform@;
        let sample = samples[i];
        match plan.bucket_of(ts, i) {
            Some(b) => {
                let mut point = waveform[b];
                point.add(sample);
                waveform.set(b, point);
            },
            None => {},
        }
        proof {
            let next = samples@.take(i + 1);
            assert(next.drop_last() =~= samples@.take(i as int));
            assert(next.last() == sample);
            assert(waveform@ =~= fed(before, *plan, ts + i, sample));
        }
        i += 1;
    }
    assert(samples@.take(samples.len() as int) =~= samples@);
}

} // verus!

verus! {

/// The bucket of the sample at `offset` within a packet starting at `ts`.
pub open spec fn bucket_at(plan: BucketPlan, ts: int, offset: int) -> Option<int> {
    plan.index_of(ts + offset)
}

/// No sample of a packet starting at `ts` falls in bucket `b`.
pub open spec fn misses_bucket(plan: BucketPlan, b: int, ts: int, samples: Seq<u32>) -> bool {
    forall|i: int| 0 <= i < samples.len() ==> #[trigger] bucket_at(plan, ts, i) != Some(b)
}

/// Feeding a packet keeps the number of buckets, and leaves every bucket that none of its
/// samples falls in as it was.
pub proof fn lemma_fed_packet_frame(
    w: Seq<AmplitudeMinMax>,
    plan: BucketPlan,
    ts: int,
    samples: Seq<u32>,
    b: int,
)
    requires
        plan.wf(),
        w.len() == plan.bucket_count,
        ts >= 0,
    ensures
        fed_packet(w, plan, ts, samples).len() == w.len(),
        0 <= b < w.len() && misses_bucket(plan, b, ts, samples) ==> fed_packet(
            w,
            plan,
            ts,
            samples,
        )[b] == w[b],
    decreases samples.len(),
{
    if samples.len() > 0 {
        let prefix = samples.drop_last();
        lemma_fed_packet_frame(w, plan, ts, prefix, b);
        let pos = ts + samples.len() - 1;
        assert(pos / (plan.samples_per_bucket as int) >= 0) by (nonlinear_arith)
            requires pos >= 0, plan.samples_per_bucket > 0;
        if misses_bucket(plan, b, ts, samples) {
            assert forall|i: int| 0 <= i < prefix.len() implies bucket_at(plan, ts, i) != Some(b) by {
                assert(bucket_at(plan, ts, i) != Some(b));
            }
            assert(bucket_at(plan, ts, samples.len() - 1) != Some(b));
        }
    }
}

} // verus!
