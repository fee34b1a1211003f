//! Latency histograms with fixed buckets. Spans of time are in nanoseconds.

use vstd::prelude::*;

use crate::double;
use crate::double::Double;
use crate::num;
use crate::num::{max_u64, min_u128};

verus! {

/// How many buckets a histogram has. The last takes what is above all bounds.
pub const BUCKETS: usize = 28;

/// The largest latency that belongs to a bucket, in microseconds.
pub open spec fn latency_bound(bucket: int) -> u64 {
    if bucket == 0 {
        10
    } else if bucket == 1 {
        25
    } else if bucket == 2 {
        50
    } else if bucket == 3 {
        100
    } else if bucket == 4 {
        250
    } else if bucket == 5 {
        500
    } else if bucket == 6 {
        1_000
    } else if bucket == 7 {
        2_000
    } else if bucket == 8 {
        5_000
    } else if bucket == 9 {
        10_000
    } else if bucket == 10 {
        20_000
    } else if bucket == 11 {
        50_000
    } else if bucket == 12 {
        100_000
    } else if bucket == 13 {
        250_000
    } else if bucket == 14 {
        500_000
    } else if bucket == 15 {
        1_000_000
    } else if bucket == 16 {
        2_000_000
    } else if bucket == 17 {
        5_000_000
    } else if bucket == 18 {
        10_000_000
    } else if bucket == 19 {
        20_000_000
    } else if bucket == 20 {
        30_000_000
    } else if bucket == 21 {
        60_000_000
    } else if bucket == 22 {
        120_000_000
    } else if bucket == 23 {
        300_000_000
    } else if bucket == 24 {
        600_000_000
    } else if bucket == 25 {
        1_200_000_000
    } else if bucket == 26 {
        3_600_000_000
    } else {
        u64::MAX
    }
}

fn bound_of(bucket: usize) -> (bound: u64)
    ensures
        bound == latency_bound(bucket as int),
{
    if bucket == 0 {
        10
    } else if bucket == 1 {
        25
    } else if bucket == 2 {
        50
    } else if bucket == 3 {
        100
    } else if bucket == 4 {
        250
    } else if bucket == 5 {
        500
    } else if bucket == 6 {
        1_000
    } else if bucket == 7 {
        2_000
    } else if bucket == 8 {
        5_000
    } else if bucket == 9 {
        10_000
    } else if bucket == 10 {
        20_000
    } else if bucket == 11 {
        50_000
    } else if bucket == 12 {
        100_000
    } else if bucket == 13 {
        250_000
    } else if bucket == 14 {
        500_000
    } else if bucket == 15 {
        1_000_000
    } else if bucket == 16 {
        2_000_000
    } else if bucket == 17 {
        5_000_000
    } else if bucket == 18 {
        10_000_000
    } else if bucket == 19 {
        20_000_000
    } else if bucket == 20 {
        30_000_000
    } else if bucket == 21 {
        60_000_000
    } else if bucket == 22 {
        120_000_000
    } else if bucket == 23 {
        300_000_000
    } else if bucket == 24 {
        600_000_000
    } else if bucket == 25 {
        1_200_000_000
    } else if bucket == 26 {
        3_600_000_000
    } else {
        u64::MAX
    }
}

/// Whole microseconds, as far as they can be told.
pub open spec fn micros_of(nanos: int) -> int {
    num::at_most(nanos / 1_000, u64::MAX as int)
}

pub fn whole_micros(nanos: u128) -> (micros: u64)
    ensures
        micros == micros_of(nanos as int),
{
    min_u128(nanos / 1_000, u64::MAX as u128) as u64
}

/// The first bucket from `bucket` on whose bound is not below `micros`.
pub open spec fn bucket_from(bucket: int, micros: u64) -> int
    decreases BUCKETS - bucket,
{
    if bucket >= BUCKETS - 1 || micros <= latency_bound(bucket) {
        bucket
    } else {
        bucket_from(bucket + 1, micros)
    }
}

/// The bucket of a latency.
pub open spec fn bucket_of(micros: u64) -> int {
    bucket_from(0, micros)
}

/// What the first `count` buckets hold.
pub open spec fn held(buckets: Seq<u64>, count: nat) -> int
    decreases count,
{
    if count == 0 {
        0
    } else {
        held(buckets, (count - 1) as nat) + buckets[count - 1]
    }
}

/// The first bucket from `bucket` on with which at least `target` are held.
pub open spec fn bucket_reaching(buckets: Seq<u64>, bucket: int, target: int) -> Option<int>
    decreases BUCKETS - bucket,
{
    if bucket >= BUCKETS {
        None
    } else if held(buckets, (bucket + 1) as nat) >= target {
        Some(bucket)
    } else {
        bucket_reaching(buckets, bucket + 1, target)
    }
}

/// How many of `count` make up `percent`: at least one.
pub open spec fn quantile_target(count: nat, percent: nat) -> int {
    num::at_least(double::share_of(count, percent), 1)
}

/// A histogram of latencies.
#[derive(Clone, Debug)]
pub struct Latency {
    pub buckets: Vec<u64>,
    pub count: u64,
    pub sum_micros: u64,
}

impl Default for Latency {
    fn default() -> (latency: Latency)
        ensures
            latency.wf(),
            latency.buckets@ == Seq::new(BUCKETS as nat, |i: int| 0u64),
            latency.count == 0,
            latency.sum_micros == 0,
    {
        let mut buckets: Vec<u64> = Vec::new();
        let mut i: usize = 0;
        while i < BUCKETS
            invariant
                i <= BUCKETS,
                buckets@ == Seq::new(i as nat, |i: int| 0u64),
            decreases BUCKETS - i,
        {
            buckets.push(0);
            i = i + 1;
            assert(buckets@ =~= Seq::new(i as nat, |i: int| 0u64));
        }
        Latency { buckets, count: 0, sum_micros: 0 }
    }
}

impl Latency {
    pub open spec fn wf(&self) -> bool {
        self.buckets@.len() == BUCKETS
    }

    /// Counts a latency in its bucket. Counters wrap.
    pub fn record(&mut self, nanos: u128)
        requires
            old(self).wf(),
        ensures
            final(self).wf(),
            ({
                let micros = micros_of(nanos as int) as u64;
                let bucket = bucket_of(micros);
                &&& final(self).buckets@ == old(self).buckets@.update(
                    bucket,
                    old(self).buckets@[bucket].wrapping_add(1),
                )
                &&& final(self).count == old(self).count.wrapping_add(1)
                &&& final(self).sum_micros == old(self).sum_micros.wrapping_add(micros)
            }),
    {
        let micros: u64 = whole_micros(nanos);
        let mut bucket: usize = 0;
        while bucket < BUCKETS - 1 && micros > bound_of(bucket)
            invariant
                bucket < BUCKETS,
                bucket_of(micros) == bucket_from(bucket as int, micros),
            decreases BUCKETS - bucket,
        {
            bucket = bucket + 1;
        }
        let held: u64 = self.buckets[bucket].wrapping_add(1);
        self.buckets.set(bucket, held);
        self.count = self.count.wrapping_add(1);
        self.sum_micros = self.sum_micros.wrapping_add(micros);
    }

    /// The latency that `percent` of what was recorded do not exceed: the bound of its bucket, or
    /// the mean where that bucket has none.
    pub open spec fn spec_quantile(&self, percent: nat) -> int {
        if self.count == 0 {
            0
        } else {
            match bucket_reaching(self.buckets@, 0, quantile_target(self.count as nat, percent)) {
                None => 0,
                Some(bucket) => if bucket == BUCKETS - 1 {
                    (self.sum_micros as int / self.count as int) * 1_000
                } else {
                    latency_bound(bucket) * 1_000
                },
            }
        }
    }

    pub fn quantile(&self, percent: u64) -> (nanos: u128)
        requires
            self.wf(),
        ensures
            nanos == self.spec_quantile(percent as nat),
    {
        if self.count == 0 {
            return 0;
        }
        let target: u64 = max_u64(Double::share(self.count, percent), 1);
        let mut cumulative: u64 = 0;
        let mut bucket: usize = 0;
        while bucket < BUCKETS
            invariant
                bucket <= BUCKETS,
                self.wf(),
                self.count > 0,
                target == quantile_target(self.count as nat, percent as nat),
                cumulative == num::at_most(held(self.buckets@, bucket as nat), u64::MAX as int),
                bucket_reaching(self.buckets@, 0, target as int) == bucket_reaching(
                    self.buckets@,
                    bucket as int,
                    target as int,
                ),
            decreases BUCKETS - bucket,
        {
            cumulative = cumulative.saturating_add(self.buckets[bucket]);
            assert(held(self.buckets@, (bucket + 1) as nat) == held(self.buckets@, bucket as nat)
                + self.buckets@[bucket as int]);
            if cumulative >= target {
                return if bucket == BUCKETS - 1 {
                    (self.sum_micros / self.count) as u128 * 1_000
                } else {
                    bound_of(bucket) as u128 * 1_000
                };
            }
            bucket = bucket + 1;
        }
        0
    }
}

// Laws.

/// A latency lies at or below the bound of its bucket, and above the bound before.
pub proof fn law_buckets_bound_their_latencies(micros: u64)
    ensures
        0 <= bucket_of(micros) < BUCKETS,
        micros <= latency_bound(bucket_of(micros)),
        bucket_of(micros) > 0 ==> micros > latency_bound(bucket_of(micros) - 1),
{
    lemma_bucket_from(0, micros);
}

proof fn lemma_bucket_from(bucket: int, micros: u64)
    requires
        0 <= bucket < BUCKETS,
    ensures
        bucket <= bucket_from(bucket, micros) < BUCKETS,
        micros <= latency_bound(bucket_from(bucket, micros)),
        bucket_from(bucket, micros) > bucket ==> micros > latency_bound(
            bucket_from(bucket, micros) - 1,
        ),
    decreases BUCKETS - bucket,
{
    if bucket < BUCKETS - 1 && micros > latency_bound(bucket) {
        lemma_bucket_from(bucket + 1, micros);
    }
}

} // verus!
