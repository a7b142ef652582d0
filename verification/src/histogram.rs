//! The intensity histogram: how often each of the 256 levels occurs.

use crate::grid::IntensityGrid;
use vstd::prelude::*;

verus! {

/// The number of histogram buckets, one per 8-bit intensity.
pub const BUCKETS: usize = 256;

/// How often the intensity `level` occurs among `samples`.
pub open spec fn occurrences(samples: Seq<u8>, level: u8) -> nat
    decreases samples.len(),
{
    if samples.len() == 0 {
        0
    } else {
        occurrences(samples.drop_last(), level) + if samples.last() == level {
            1nat
        } else {
            0nat
        }
    }
}

/// Whether every sample has the same intensity.
pub open spec fn is_flat(samples: Seq<u8>) -> bool {
    forall|i: int| 0 <= i < samples.len() ==> #[trigger] samples[i] == samples[0]
}

/// The counts of the buckets below `upto`, added up.
pub open spec fn bucket_total(samples: Seq<u8>, upto: nat) -> nat
    decreases upto,
{
    if upto == 0 || upto > 256 {
        0
    } else {
        bucket_total(samples, (upto - 1) as nat) + occurrences(samples, (upto - 1) as u8)
    }
}

/// The histogram of `samples` as a sequence of 256 counts.
pub open spec fn histogram_of(samples: Seq<u8>) -> Seq<nat> {
    Seq::new(256, |level: int| occurrences(samples, level as u8))
}

/// No level occurs more often than there are samples.
pub proof fn lemma_occurrences_bounded(samples: Seq<u8>, level: u8)
    ensures
        occurrences(samples, level) <= samples.len(),
    decreases samples.len(),
{
    if samples.len() > 0 {
        lemma_occurrences_bounded(samples.drop_last(), level);
    }
}

/// A level fills the whole histogram exactly when every sample has it.
pub proof fn lemma_full_bucket(samples: Seq<u8>, level: u8)
    ensures
        occurrences(samples, level) == samples.len() <==> (forall|i: int|
            0 <= i < samples.len() ==> #[trigger] samples[i] == level),
    decreases samples.len(),
{
    if samples.len() > 0 {
        let front = samples.drop_last();
        lemma_full_bucket(front, level);
        lemma_occurrences_bounded(front, level);
        if occurrences(samples, level) == samples.len() {
            assert forall|i: int| 0 <= i < samples.len() implies #[trigger] samples[i]
                == level by {
                if i < front.len() {
                    assert(front[i] == level);
                }
            }
        }
        if forall|i: int| 0 <= i < samples.len() ==> #[trigger] samples[i] == level {
            assert forall|i: int| 0 <= i < front.len() implies #[trigger] front[i] == level by {
                assert(samples[i] == level);
            }
            assert(samples.last() == level);
        }
    }
}

/// The histogram of a non-empty grid has a single occupied bucket exactly
/// when every sample has the same intensity.
pub proof fn lemma_single_bucket_iff_flat(samples: Seq<u8>)
    requires
        samples.len() > 0,
    ensures
        is_flat(samples) <==> (exists|level: u8| #[trigger]
            occurrences(samples, level) == samples.len()),
{
    if is_flat(samples) {
        lemma_full_bucket(samples, samples[0]);
        assert(occurrences(samples, samples[0]) == samples.len());
    }
    if exists|level: u8| #[trigger] occurrences(samples, level) == samples.len() {
        let level = choose|level: u8| #[trigger]
            occurrences(samples, level) == samples.len();
        lemma_full_bucket(samples, level);
        assert(samples[0] == level);
    }
}

proof fn lemma_bucket_total_step(samples: Seq<u8>, upto: nat)
    requires
        samples.len() > 0,
        upto <= 256,
    ensures
        bucket_total(samples, upto) == bucket_total(samples.drop_last(), upto) + if samples.last()
            < upto {
            1nat
        } else {
            0nat
        },
    decreases upto,
{
    if upto > 0 {
        lemma_bucket_total_step(samples, (upto - 1) as nat);
    }
}

/// The 256 buckets together count every sample once.
pub proof fn lemma_bucket_total(samples: Seq<u8>)
    ensures
        bucket_total(samples, 256) == samples.len(),
    decreases samples.len(),
{
    if samples.len() == 0 {
        lemma_bucket_total_empty(samples, 256);
    } else {
        lemma_bucket_total(samples.drop_last());
        lemma_bucket_total_step(samples, 256);
    }
}

proof fn lemma_bucket_total_empty(samples: Seq<u8>, upto: nat)
    requires
        samples.len() == 0,
    ensures
        bucket_total(samples, upto) == 0,
    decreases upto,
{
    if upto > 0 && upto <= 256 {
        lemma_bucket_total_empty(samples, (upto - 1) as nat);
    }
}

/// Counts, for each of the 256 intensity levels, the samples that have it.
pub fn calculate_histogram(grid: &IntensityGrid) -> (hist: Vec<u32>)
    ensures
        hist@.len() == BUCKETS,
        forall|level: u8| hist@[level as int] == #[trigger] occurrences(grid@.samples, level),
{
    let samples = grid.samples();
    let total = grid.sample_count() as usize;
    let mut hist: Vec<u32> = Vec::new();
    while hist.len() < BUCKETS
        invariant
            hist@.len() <= BUCKETS,
            forall|k: int| 0 <= k < hist@.len() ==> hist@[k] == 0,
        decreases BUCKETS - hist@.len(),
    {
        hist.push(0);
    }
    let mut i: usize = 0;
    while i < total
        invariant
            i <= total,
            total == samples@.len(),
            total <= u32::MAX,
            hist@.len() == BUCKETS,
            forall|level: u8|
                hist@[level as int] == #[trigger] occurrences(samples@.take(i as int), level),
        decreases total - i,
    {
        let level = samples[i];
        proof {
            lemma_occurrences_bounded(samples@.take(i as int), level);
            assert(samples@.take(i + 1).drop_last() =~= samples@.take(i as int));
        }
        let count = hist[level as usize];
        hist.set(level as usize, count + 1);
        proof {
            let before = samples@.take(i as int);
            let after = samples@.take(i + 1);
            assert(after.last() == level);
            assert forall|other: u8|
                hist@[other as int] == #[trigger] occurrences(after, other) by {
                assert(occurrences(before, other) == occurrences(after.drop_last(), other));
            }
        }
        i += 1;
    }
    proof {
        assert(samples@.take(i as int) =~= samples@);
    }
    hist
}

} // verus!
