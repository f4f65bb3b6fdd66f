use vstd::prelude::*;

use crate::plan::BucketPlan;

verus! {

// Samples are carried as the bit patterns of IEEE-754 single-precision values.
/// Whether the bits encode a NaN: all exponent bits set and a non-zero fraction.
pub open spec fn is_nan(bits: u32) -> bool {
    (bits & 0x7f80_0000u32) == 0x7f80_0000u32 && (bits & 0x007f_ffffu32) != 0
}

/// A key whose integer order is the numeric order of the non-NaN values: sign and
/// magnitude, with both zeros at 0.
pub open spec fn order_key(bits: u32) -> int {
    let magnitude = (bits & 0x7fff_ffffu32) as int;
    if (bits & 0x8000_0000u32) != 0 {
        -magnitude
    } else {
        magnitude
    }
}

/// The floating-point `a <= b`: false whenever either side is NaN.
pub open spec fn sample_le(a: u32, b: u32) -> bool {
    !is_nan(a) && !is_nan(b) && order_key(a) <= order_key(b)
}

fn nan_bits(bits: u32) -> (r: bool)
    ensures
        r == is_nan(bits),
{
    (bits & 0x7f80_0000u32) == 0x7f80_0000u32 && (bits & 0x007f_ffffu32) != 0
}

fn key_of(bits: u32) -> (r: i64)
    ensures
        r == order_key(bits),
{
    let magnitude: i64 = (bits & 0x7fff_ffffu32) as i64;
    if (bits & 0x8000_0000u32) != 0 {
        -magnitude
    } else {
        magnitude
    }
}

/// Floating-point `a <= b` on the bit patterns of two samples.
pub fn le_bits(a: u32, b: u32) -> (r: bool)
    ensures
        r == sample_le(a, b),
{
    !nan_bits(a) && !nan_bits(b) && key_of(a) <= key_of(b)
}

/// The envelope of one bucket, as the bit patterns of its lowest and highest samples.
/// Both start at `0.0`.
#[derive(Debug, Clone, Copy, PartialEq, Eq)]
pub struct AmplitudeMinMax {
    pub min: u32,
    pub max: u32,
}

impl AmplitudeMinMax {
    /// The state after consuming `sample`: a sample at or below the minimum lowers it and
    /// is then not considered for the maximum; otherwise one at or above the maximum raises it.
    pub open spec fn added(self, sample: u32) -> AmplitudeMinMax {
        if sample_le(sample, self.min) {
            AmplitudeMinMax { min: sample, ..self }
        } else if sample_le(self.max, sample) {
            AmplitudeMinMax { max: sample, ..self }
        } else {
            self
        }
    }

    pub fn new() -> (r: AmplitudeMinMax)
        ensures
            r.min == 0 && r.max == 0,
    {
        AmplitudeMinMax { min: 0, max: 0 }
    }

    /// Consumes one sample, given as its bit pattern.
    pub fn add(&mut self, sample: u32)
        ensures
            *final(self) == old(self).added(sample),
    {
        if le_bits(sample, self.min) {
            self.min = sample;
            return;
        }
        if le_bits(self.max, sample) {
            self.max = sample;
        }
    }
}

impl Default for AmplitudeMinMax {
    fn default() -> (r: AmplitudeMinMax)
        ensures
            r.min == 0 && r.max == 0,
    {
        AmplitudeMinMax::new()
    }
}

} // verus!
