use vstd::prelude::*;

use crate::amplitude::AmplitudeMinMax;
use crate::driver::{
    continues, decode_step, on_decoded, on_packet, packet_step, packet_ts, run, DecodeEvent,
    PacketEvent, Step, Turn,
};
use crate::plan::BucketPlan;
use crate::waveform::{
    empty_waveform, fed_packet, feed_min_max, lemma_fed_packet_frame, new_min_max_waveform,
};

verus! {

/// When every turn of `before` lets the loop go on, the run over `before` and one more turn is
/// the run over that turn, from where `before` left the envelopes.
proof fn lemma_run_push(
    w: Seq<AmplitudeMinMax>,
    plan: BucketPlan,
    track_id: u32,
    before: Seq<Turn>,
    last: Turn,
)
    requires
        plan.wf(),
        w.len() == plan.bucket_count,
        forall|k: int| 0 <= k < before.len() ==> continues(track_id, #[trigger] before[k]),
    ensures
        run(w, plan, track_id, before) matches Ok(v) && v.len() == w.len() && run(
            w,
            plan,
            track_id,
            before.push(last),
        ) == run(v, plan, track_id, seq![last]),
    decreases before.len(),
{
    if before.len() == 0 {
        assert(before.push(last) =~= seq![last]);
    } else {
        let (packet, decoded, samples) = before[0];
        let ts = packet_ts(packet);
        lemma_fed_packet_frame(w, plan, ts, samples, 0);
        let fw = fed_packet(w, plan, ts, samples);
        let tail = before.skip(1);
        assert forall|k: int| 0 <= k < tail.len() implies continues(track_id, #[trigger] tail[k]) by {
            assert(tail[k] == before[k + 1]);
        }
        assert(before.push(last).skip(1) =~= tail.push(last));
        assert(before.push(last)[0] == before[0]);
        assert(continues(track_id, before[0]));
        lemma_run_push(w, plan, track_id, tail, last);
        lemma_run_push(fw, plan, track_id, tail, last);
    }
}

/// The decode loop of a Min/Max request: it classifies what the demuxer and the decoder
/// yield, folds the decoded samples into one envelope per bucket, and keeps the turns seen
/// so far, so that its envelopes are always those of `run` over them.
pub struct MinMaxRun {
    plan: BucketPlan,
    track_id: u32,
    waveform: Vec<AmplitudeMinMax>,
    pending: Option<u64>,
    turns: Ghost<Seq<Turn>>,
}

impl MinMaxRun {
    pub closed spec fn plan_of(&self) -> BucketPlan {
        self.plan
    }

    pub closed spec fn track_of(&self) -> u32 {
        self.track_id
    }

    /// The turns completed so far.
    pub closed spec fn turns(&self) -> Seq<Turn> {
        self.turns@
    }

    /// The first sample position of the packet read and not yet decoded, if any.
    pub closed spec fn awaiting(&self) -> Option<u64> {
        self.pending
    }

    pub closed spec fn inv(&self) -> bool {
        &&& self.plan.wf()
        &&& self.waveform.len() == self.plan.bucket_count
        &&& forall|k: int|
            0 <= k < self.turns@.len() ==> continues(self.track_id, #[trigger] self.turns@[k])
        &&& run(empty_waveform(self.plan.bucket_count as nat), self.plan, self.track_id, self.turns@)
            == Ok::<Seq<AmplitudeMinMax>, crate::error::WaveformError>(self.waveform@)
    }

    /// The run so far: what the loop would return had the stream ended here.
    pub open spec fn outcome(&self) -> Result<Seq<AmplitudeMinMax>, crate::error::WaveformError> {
        run(
            empty_waveform(self.plan_of().bucket_count as nat),
            self.plan_of(),
            self.track_of(),
            self.turns(),
        )
    }

    /// A run over track `track_id` that has seen no packet yet.
    pub fn new(plan: BucketPlan, track_id: u32) -> (r: MinMaxRun)
        requires
            plan.wf(),
        ensures
            r.inv(),
            r.plan_of() == plan,
            r.track_of() == track_id,
            r.turns() == Seq::<Turn>::empty(),
            r.awaiting() is None,
    {
        MinMaxRun {
            plan,
            track_id,
            waveform: new_min_max_waveform(&plan),
            pending: None,
            turns: Ghost(Seq::empty()),
        }
    }

    /// Takes what the demuxer yielded. `Decode` asks for the packet to be decoded and handed
    /// to `decoded`; `Skip` asks for the next packet; `Finish` and `Fail` end the run with the
    /// outcome of `run` over the turns including this one. A packet that is not decoded is
    /// recorded with no samples; `run` does not look at its decode event.
    pub fn packet(&mut self, event: PacketEvent) -> (r: Step)
        requires
            old(self).inv(),
            old(self).awaiting() is None,
        ensures
            r == packet_step(old(self).track_of(), event),
            final(self).plan_of() == old(self).plan_of(),
            final(self).track_of() == old(self).track_of(),
            r == Step::Skip ==> final(self).inv() && final(self).awaiting() is None
                && final(self).turns() == old(self).turns().push(
                (event, DecodeEvent::Samples, Seq::empty()),
            ),
            r == Step::Decode ==> final(self).inv() && final(self).turns() == old(self).turns()
                && event == (PacketEvent::Packet {
                track_id: old(self).track_of(),
                ts: final(self).awaiting()->Some_0,
            }),
            r == Step::Finish ==> *final(self) == *old(self) && run(
                empty_waveform(old(self).plan_of().bucket_count as nat),
                old(self).plan_of(),
                old(self).track_of(),
                old(self).turns().push((event, DecodeEvent::Samples, Seq::empty())),
            ) == old(self).outcome(),
            r matches Step::Fail(e) ==> *final(self) == *old(self) && run(
                empty_waveform(old(self).plan_of().bucket_count as nat),
                old(self).plan_of(),
                old(self).track_of(),
                old(self).turns().push((event, DecodeEvent::Samples, Seq::empty())),
            ) == Err::<Seq<AmplitudeMinMax>, crate::error::WaveformError>(e),
    {
        let ghost turn: Turn = (event, DecodeEvent::Samples, Seq::empty());
        proof {
            lemma_run_push(
                empty_waveform(self.plan.bucket_count as nat),
                self.plan,
                self.track_id,
                self.turns@,
                turn,
            );
            assert(seq![turn].skip(1) =~= Seq::<Turn>::empty());
        }
        let ts: u64 = match &event {
            PacketEvent::Packet { ts, .. } => *ts,
            _ => 0,
        };
        let step = on_packet(self.track_id, event);
        match step {
            Step::Skip => {
                let ghost before = self.turns@;
                self.turns = Ghost(before.push(turn));
                proof {
                    let v = self.waveform@;
                    assert(run(v, self.plan, self.track_id, Seq::<Turn>::empty()) == Ok::<
                        Seq<AmplitudeMinMax>,
                        crate::error::WaveformError,
                    >(v));
                    assert(continues(self.track_id, turn));
                    assert forall|k: int| 0 <= k < self.turns@.len() implies continues(
                        self.track_id,
                        #[trigger] self.turns@[k],
                    ) by {
                        if k < before.len() {
                            assert(self.turns@[k] == before[k]);
                        }
                    }
                }
            },
            Step::Decode => {
                self.pending = Some(ts);
            },
            _ => {},
        }
        step
    }

    /// Takes the outcome of decoding the awaited packet, with the channel samples it gave.
    /// `Feed` folds them into their buckets, `Skip` drops the packet; either way the loop
    /// reads the next packet. `Fail` ends the run.
    pub fn decoded(&mut self, event: DecodeEvent, samples: &Vec<u32>) -> (r: Step)
        requires
            old(self).inv(),
            old(self).awaiting() is Some,
        ensures
            r == decode_step(event),
            final(self).plan_of() == old(self).plan_of(),
            final(self).track_of() == old(self).track_of(),
            ({
                let turn = (
                    PacketEvent::Packet {
                        track_id: old(self).track_of(),
                        ts: old(self).awaiting()->Some_0,
                    },
                    event,
                    samples@,
                );
                &&& (r == Step::Feed || r == Step::Skip) ==> final(self).inv()
                    && final(self).awaiting() is None && final(self).turns() == old(
                    self,
                ).turns().push(turn)
                &&& r matches Step::Fail(e) ==> run(
                    empty_waveform(old(self).plan_of().bucket_count as nat),
                    old(self).plan_of(),
                    old(self).track_of(),
                    old(self).turns().push(turn),
                ) == Err::<Seq<AmplitudeMinMax>, crate::error::WaveformError>(e)
            }),
    {
        let ts = match self.pending {
            Some(ts) => ts,
            None => 0,
        };
        let ghost turn: Turn = (
            PacketEvent::Packet { track_id: self.track_id, ts },
            event,
            samples@,
        );
        let ghost w0 = self.waveform@;
        proof {
            lemma_run_push(
                empty_waveform(self.plan.bucket_count as nat),
                self.plan,
                self.track_id,
                self.turns@,
                turn,
            );
            assert(seq![turn].skip(1) =~= Seq::<Turn>::empty());
            assert(packet_ts(turn.0) == ts as int);
        }
        let step = on_decoded(event);
        match step {
            Step::Feed => {
                feed_min_max(&mut self.waveform, &self.plan, ts, samples);
                proof {
                    lemma_fed_packet_frame(w0, self.plan, ts as int, samples@, 0);
                    assert(seq![turn][0] == turn);
                    assert(run(w0, self.plan, self.track_id, seq![turn]) == run(
                        self.waveform@,
                        self.plan,
                        self.track_id,
                        Seq::<Turn>::empty(),
                    ));
                }
            },
            _ => {},
        }
        match step {
            Step::Feed | Step::Skip => {
                let ghost before = self.turns@;
                self.turns = Ghost(before.push(turn));
                self.pending = None;
                proof {
                    let v = self.waveform@;
                    assert(run(v, self.plan, self.track_id, Seq::<Turn>::empty()) == Ok::<
                        Seq<AmplitudeMinMax>,
                        crate::error::WaveformError,
                    >(v));
                    assert(continues(self.track_id, turn));
                    assert forall|k: int| 0 <= k < self.turns@.len() implies continues(
                        self.track_id,
                        #[trigger] self.turns@[k],
                    ) by {
                        if k < before.len() {
                            assert(self.turns@[k] == before[k]);
                        }
                    }
                }
            },
            _ => {},
        }
        step
    }

    /// The envelopes of the run, one per bucket: those of `run` over the turns seen.
    pub fn finish(self) -> (r: Vec<AmplitudeMinMax>)
        requires
            self.inv(),
        ensures
            self.outcome() == Ok::<Seq<AmplitudeMinMax>, crate::error::WaveformError>(r@),
            r.len() == self.plan_of().bucket_count,
    {
        self.waveform
    }
}

} // verus!

verus! {

/// Two runs with the same plan and track that have seen the same turns hold bit-identical
/// envelopes: nothing but their input decides the result.
pub proof fn law_same_input_same_waveform(
    a: MinMaxRun,
    b: MinMaxRun,
    wa: Seq<AmplitudeMinMax>,
    wb: Seq<AmplitudeMinMax>,
)
    requires
        a.plan_of() == b.plan_of(),
        a.track_of() == b.track_of(),
        a.turns() == b.turns(),
        a.outcome() == Ok::<Seq<AmplitudeMinMax>, crate::error::WaveformError>(wa),
        b.outcome() == Ok::<Seq<AmplitudeMinMax>, crate::error::WaveformError>(wb),
    ensures
        wa == wb,
{
}

} // verus!
