//! Adjacent pairs of a run of samples.

use vstd::prelude::*;
use itertools::Itertools;
use crate::sample::Sample;

verus! {

/// Each sample but the last together with the sample that follows it, in
/// order. A run of fewer than two samples has no pairs.
pub open spec fn adjacent_pairs(samples: Seq<Sample>) -> Seq<(Sample, Sample)> {
    Seq::new(
        if samples.len() >= 1 {
            (samples.len() - 1) as nat
        } else {
            0
        },
        |i: int| (samples[i], samples[i + 1]),
    )
}

/// The adjacent pairs of `samples`, from `itertools::Itertools::tuple_windows`
/// at tuple size two.
///
/// Trusted: that the iterator yields the windows `(samples[i], samples[i + 1])`
/// for `i` from 0 upwards, one for each sample that has a successor, and
/// nothing else.
#[verifier::external_body]
pub(crate) fn tuple_windows(samples: &Vec<Sample>) -> (pairs: Vec<(Sample, Sample)>)
    ensures
        pairs@ == adjacent_pairs(samples@),
{
    samples.iter().copied().tuple_windows().collect()
}

} // verus!
