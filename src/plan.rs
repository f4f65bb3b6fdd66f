use vstd::prelude::*;

use crate::error::WaveformError;

verus! {

/// Ceiling of `a / b` on mathematical integers.
pub open spec fn ceil_div(a: int, b: int) -> int {
    (a + b - 1) / b
}

fn ceil_div_u64(a: u64, b: u64) -> (r: u64)
    requires
        b > 0,
    ensures
        r == ceil_div(a as int, b as int),
{
    let q: u64 = a / b;
    let extra: u64 = if a % b != 0 { 1 } else { 0 };
    proof {
        let (ai, bi) = (a as int, b as int);
        assert(ceil_div(ai, bi) == q + extra) by (nonlinear_arith)
            requires
                q == ai / bi,
                extra == (if ai % bi != 0 { 1int } else { 0 }),
                bi > 0,
                ai >= 0,
        {
            assert(ai == bi * (ai / bi) + ai % bi);
        }
        assert(extra == 1 ==> q < u64::MAX) by (nonlinear_arith)
            requires
                q == ai / bi,
                extra == (if ai % bi != 0 { 1int } else { 0 }),
                bi > 0,
                0 <= ai <= u64::MAX,
        {
            if extra == 1 {
                assert(bi >= 2);
                assert(q * bi <= ai);
                assert(q * 2 <= q * bi);
            }
        }
    }
    q + extra
}

/// Integer division of `a` by `b`, rounded up.
pub fn div_up(a: u64, b: u64) -> (r: usize)
    requires
        b > 0,
        ceil_div(a as int, b as int) <= usize::MAX,
    ensures
        r == ceil_div(a as int, b as int),
{
    ceil_div_u64(a, b) as usize
}

} // verus!

verus! {

/// Width of one bucket in samples: the sample rate divided by the density, rounded up.
pub open spec fn planned_width(sample_rate: int, points_per_sec: int) -> int {
    ceil_div(sample_rate, points_per_sec)
}

/// Number of buckets that cover `total_frames` samples, the last one possibly partial.
pub open spec fn planned_count(sample_rate: int, total_frames: int, points_per_sec: int) -> int {
    ceil_div(total_frames, planned_width(sample_rate, points_per_sec))
}

/// How decoded sample positions are grouped into a fixed number of output buckets.
#[derive(Debug, Clone, Copy, PartialEq, Eq)]
pub struct BucketPlan {
    pub samples_per_bucket: u64,
    pub bucket_count: usize,
}

impl BucketPlan {
    pub open spec fn wf(&self) -> bool {
        self.samples_per_bucket > 0
    }

    /// The bucket that holds absolute sample position `pos`, if it lies within the plan.
    pub open spec fn index_of(&self, pos: int) -> Option<int> {
        let b = pos / (self.samples_per_bucket as int);
        if b < self.bucket_count {
            Some(b)
        } else {
            None
        }
    }

    /// The bucket of the sample at `offset` within a packet whose first sample is at `ts`.
    /// Samples past the last bucket have none and are to be dropped.
    pub fn bucket_of(&self, ts: u64, offset: usize) -> (r: Option<usize>)
        requires
            self.wf(),
        ensures
            r matches Some(b) ==> self.index_of(ts + offset) == Some(b as int),
            r is None ==> self.index_of(ts + offset) is None,
    {
        let pos: u128 = ts as u128 + offset as u128;
        let b: u128 = pos / (self.samples_per_bucket as u128);
        if b < self.bucket_count as u128 {
            Some(b as usize)
        } else {
            None
        }
    }
}

/// Sizes the output before any sample is decoded.
///
/// Fails with `InvalidParameter` when `points_per_sec` is zero (or the bucket count would not
/// fit in `usize`), and with `MissingMetadata` when the sample rate is zero.
pub fn plan_buckets(sample_rate: u32, total_frames: u64, points_per_sec: u64) -> (r: Result<
    BucketPlan,
    WaveformError,
>)
    ensures
        points_per_sec == 0 ==> r == Err::<BucketPlan, WaveformError>(
            WaveformError::InvalidParameter,
        ),
        points_per_sec > 0 && sample_rate == 0 ==> r == Err::<BucketPlan, WaveformError>(
            WaveformError::MissingMetadata,
        ),
        points_per_sec > 0 && sample_rate > 0 ==> (match r {
            Ok(p) => p.wf() && p.samples_per_bucket == planned_width(
                sample_rate as int,
                points_per_sec as int,
            ) && p.bucket_count == planned_count(
                sample_rate as int,
                total_frames as int,
                points_per_sec as int,
            ),
            Err(e) => e == WaveformError::InvalidParameter && planned_count(
                sample_rate as int,
                total_frames as int,
                points_per_sec as int,
            ) > usize::MAX,
        }),
{
    if points_per_sec == 0 {
        return Err(WaveformError::InvalidParameter);
    }
    if sample_rate == 0 {
        return Err(WaveformError::MissingMetadata);
    }
    let width = ceil_div_u64(sample_rate as u64, points_per_sec);
    proof {
        let (s, p) = (sample_rate as int, points_per_sec as int);
        assert(ceil_div(s, p) >= 1) by (nonlinear_arith)
            requires s >= 1, p >= 1,
        {
            assert(s + p - 1 >= p);
        }
    }
    let count = ceil_div_u64(total_frames, width);
    if count > usize::MAX as u64 {
        return Err(WaveformError::InvalidParameter);
    }
    Ok(BucketPlan { samples_per_bucket: width, bucket_count: count as usize })
}

} // verus!
