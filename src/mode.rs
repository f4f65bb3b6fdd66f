use vstd::prelude::*;
use vstd::string::StringSliceAdditionalSpecFns;

verus! {

/// How the samples of one bucket are summarised.
#[derive(Debug, Clone, Copy, PartialEq, Eq)]
pub enum WaveMode {
    /// The arithmetic mean of the bucket's samples.
    Average,
    /// The lowest and highest samples of the bucket.
    MinMax,
}

/// The name by which a caller selects `Average`.
pub open spec fn average_name() -> Seq<u8> {
    seq![65u8, 86, 69, 82, 65, 71, 69]
}

/// The name by which a caller selects `MinMax`.
pub open spec fn min_max_name() -> Seq<u8> {
    seq![77u8, 73, 78, 95, 77, 65, 88]
}

fn bytes_equal(a: &[u8], b: &[u8]) -> (r: bool)
    ensures
        r == (a@ == b@),
{
    if a.len() != b.len() {
        return false;
    }
    let mut i: usize = 0;
    while i < a.len()
        invariant
            i <= a.len(),
            a.len() == b.len(),
            forall|j: int| 0 <= j < i ==> a@[j] == b@[j],
        decreases a.len() - i,
    {
        if a[i] != b[i] {
            return false;
        }
        i += 1;
    }
    assert(a@ =~= b@);
    true
}

impl WaveMode {
    /// Reads a mode from its exact, upper-case name: `AVERAGE` or `MIN_MAX`.
    pub fn parse(name: &str) -> (r: Option<WaveMode>)
        ensures
            r == (if name.spec_bytes() == average_name() {
                Some(WaveMode::Average)
            } else if name.spec_bytes() == min_max_name() {
                Some(WaveMode::MinMax)
            } else {
                None
            }),
    {
        let bytes = name.as_bytes();
        let average: [u8; 7] = [65, 86, 69, 82, 65, 71, 69];
        let min_max: [u8; 7] = [77, 73, 78, 95, 77, 65, 88];
        assert(average@ =~= average_name());
        assert(min_max@ =~= min_max_name());
        if bytes_equal(bytes, average.as_slice()) {
            Some(WaveMode::Average)
        } else if bytes_equal(bytes, min_max.as_slice()) {
            Some(WaveMode::MinMax)
        } else {
            None
        }
    }
}

} // verus!
