//! Integer bookkeeping of the plugin: capacities, statistics and the default
//! number of workers.
use vstd::prelude::*;

verus! {

/// A native count read as a length: negative counts are 0.
pub open spec fn clamped(value: i32) -> int {
    if value < 0 {
        0
    } else {
        value as int
    }
}

/// Clamps a native element count to a non-negative length.
pub fn capacity_len(value: i32) -> (len: usize)
    ensures
        len == clamped(value),
{
    if value < 0 {
        0
    } else {
        value as usize
    }
}

/// The number of manifolds that the native buckets stand for: bucket `i`
/// (from 0) counts contacts with `i + 1` manifolds; negative counts are 0.
pub open spec fn weighted_manifolds(buckets: Seq<i32>) -> int
    decreases buckets.len(),
{
    if buckets.len() == 0 {
        0
    } else {
        weighted_manifolds(buckets.drop_last()) + buckets.len() * clamped(buckets.last())
    }
}

proof fn lemma_weighted_manifolds_monotone(buckets: Seq<i32>, i: int)
    requires
        0 <= i <= buckets.len(),
    ensures
        0 <= weighted_manifolds(buckets.take(i)) <= weighted_manifolds(buckets),
    decreases buckets.len(),
{
    if buckets.len() == 0 {
        assert(buckets.take(i) =~= buckets);
    } else {
        let n = buckets.len();
        assert(n * clamped(buckets.last()) >= 0) by (nonlinear_arith)
            requires
                n >= 0,
                clamped(buckets.last()) >= 0,
        ;
        if i == n {
            assert(buckets.take(i) =~= buckets);
            lemma_weighted_manifolds_monotone(buckets.drop_last(), i - 1);
        } else {
            assert(buckets.take(i) =~= buckets.drop_last().take(i));
            lemma_weighted_manifolds_monotone(buckets.drop_last(), i);
        }
    }
}

/// Total manifold count from the native per-size buckets.
pub fn manifold_count(buckets: [i32; 8]) -> (count: usize)
    requires
        weighted_manifolds(buckets@) <= usize::MAX,
    ensures
        count == weighted_manifolds(buckets@),
{
    let mut total: usize = 0;
    let mut index: usize = 0;
    while index < 8
        invariant
            0 <= index <= 8,
            buckets@.len() == 8,
            weighted_manifolds(buckets@) <= usize::MAX,
            total == weighted_manifolds(buckets@.take(index as int)),
        decreases 8 - index,
    {
        let count = capacity_len(buckets[index]);
        proof {
            let next = buckets@.take(index + 1);
            assert(next.drop_last() =~= buckets@.take(index as int));
            assert(next.last() == buckets@[index as int]);
            lemma_weighted_manifolds_monotone(buckets@, index + 1);
            assert(weighted_manifolds(next) == total + (index + 1) * count);
            assert((index + 1) * count >= 0) by (nonlinear_arith)
                requires
                    index >= 0,
                    count >= 0,
            ;
        }
        let weighted = (index + 1) * count;
        total = total + weighted;
        index = index + 1;
    }
    assert(buckets@.take(8) =~= buckets@);
    total
}

/// Constraints that did not fit a graph color: the last color bucket,
/// clamped at 0.
pub fn overflow_constraint_count(color_counts: [i32; 24]) -> (count: usize)
    ensures
        count == clamped(color_counts@.last()),
{
    capacity_len(color_counts[23])
}

/// The worker count used when the configuration does not name one: half the
/// available parallelism, at least 1 and at most 8 (and at most the native
/// limit); 1 when the parallelism is unknown.
pub open spec fn spec_default_worker_count(available: Option<usize>, max_workers: usize) -> int {
    let max = if max_workers < 8 {
        if max_workers < 1 {
            1
        } else {
            max_workers as int
        }
    } else {
        8
    };
    match available {
        Some(count) => if count / 2 < 1 {
            1
        } else if count / 2 > max {
            max
        } else {
            (count / 2) as int
        },
        None => 1,
    }
}

/// Default worker count for the available parallelism and the native limit.
pub fn default_worker_count(available_parallelism: Option<usize>, max_workers: usize) -> (count: u32)
    ensures
        count == spec_default_worker_count(available_parallelism, max_workers),
        1 <= count <= 8,
{
    let mut max: usize = if max_workers < 8 {
        max_workers
    } else {
        8
    };
    if max < 1 {
        max = 1;
    }
    match available_parallelism {
        Some(count) => {
            let half = count / 2;
            if half < 1 {
                1
            } else if half > max {
                max as u32
            } else {
                half as u32
            }
        },
        None => 1,
    }
}

} // verus!
