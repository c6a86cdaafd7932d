//! Uniformity: the digests of a dense or strided range of integers fall
//! evenly into a small number of buckets.
use crate::accumulator::{hash, may_hash, Accumulator};
use crate::encoding::{le_bytes, to_le_bytes};
use vstd::prelude::*;

verus! {

/// One distribution scenario: `samples` integers, `stride` apart and starting
/// at 0, are hashed as four little-endian bytes each, and every digest is
/// counted in one of `buckets` buckets, which is found either by masking the
/// digest with `buckets - 1` or by taking its remainder modulo `buckets`.
#[derive(Clone, Copy, Debug, PartialEq, Eq)]
pub struct Scenario {
    pub samples: u32,
    pub stride: u32,
    pub buckets: u32,
    pub by_mask: bool,
}

/// The extreme bucket counts of a scenario in which some bucket holds 900
/// digests or fewer, or 1100 or more.
#[derive(Clone, Copy, Debug, PartialEq, Eq)]
pub struct DistributionFailure {
    pub min: u32,
    pub max: u32,
}

impl Scenario {
    /// There is a bucket, and the integers to hash fit in 32 bits.
    pub open spec fn is_valid(self) -> bool {
        &&& self.buckets > 0
        &&& self.samples * self.stride <= u32::MAX
    }

    /// The bytes of sample `index`.
    pub open spec fn sample(self, index: nat) -> Seq<u8> {
        le_bytes((index * self.stride) as u128, 4)
    }

    /// The bucket in which `digest` is counted.
    pub open spec fn bucket_of(self, digest: u64) -> int {
        if self.by_mask {
            (digest & (self.buckets - 1) as u64) as int
        } else {
            digest as int % self.buckets as int
        }
    }

    /// How many of `digests` are counted in `bucket`.
    pub open spec fn occupancy(self, digests: Seq<u64>, bucket: int) -> nat
        decreases digests.len(),
    {
        if digests.len() == 0 {
            0
        } else {
            self.occupancy(digests.drop_last(), bucket) + if self.bucket_of(digests.last())
                == bucket {
                1nat
            } else {
                0nat
            }
        }
    }

    /// The bucket counts that `digests` give.
    pub open spec fn histogram(self, digests: Seq<u64>) -> Seq<u32> {
        Seq::new(self.buckets as nat, |bucket: int| self.occupancy(digests, bucket) as u32)
    }
}

/// The least of the counts; 0 where there is none.
pub open spec fn smallest(counts: Seq<u32>) -> u32
    decreases counts.len(),
{
    if counts.len() == 0 {
        0
    } else if counts.len() == 1 {
        counts[0]
    } else if counts.last() < smallest(counts.drop_last()) {
        counts.last()
    } else {
        smallest(counts.drop_last())
    }
}

/// The greatest of the counts; 0 where there is none.
pub open spec fn largest(counts: Seq<u32>) -> u32
    decreases counts.len(),
{
    if counts.len() == 0 {
        0
    } else if counts.len() == 1 {
        counts[0]
    } else if counts.last() > largest(counts.drop_last()) {
        counts.last()
    } else {
        largest(counts.drop_last())
    }
}

/// Every count lies strictly between 900 and 1100.
pub open spec fn evenly_spread(counts: Seq<u32>) -> bool {
    forall|bucket: int| 0 <= bucket < counts.len() ==> 900 < #[trigger] counts[bucket] < 1100
}

/// What the uniformity check answers for the counts of the buckets.
pub open spec fn distribution_verdict(counts: Seq<u32>) -> Result<(), DistributionFailure> {
    if largest(counts) < 1100 && smallest(counts) > 900 {
        Ok(())
    } else {
        Err(DistributionFailure { min: smallest(counts), max: largest(counts) })
    }
}

/// `smallest` and `largest` are counts of the sequence, and no count lies
/// outside them.
pub proof fn lemma_extremes(counts: Seq<u32>)
    requires
        counts.len() > 0,
    ensures
        forall|bucket: int|
            0 <= bucket < counts.len() ==> smallest(counts) <= #[trigger] counts[bucket]
                <= largest(counts),
        exists|bucket: int| 0 <= bucket < counts.len() && counts[bucket] == smallest(counts),
        exists|bucket: int| 0 <= bucket < counts.len() && counts[bucket] == largest(counts),
    decreases counts.len(),
{
    if counts.len() > 1 {
        let front = counts.drop_last();
        lemma_extremes(front);
        assert forall|bucket: int| 0 <= bucket < counts.len() implies smallest(counts)
            <= #[trigger] counts[bucket] <= largest(counts) by {
            if bucket < front.len() {
                assert(counts[bucket] == front[bucket]);
            }
        }
        let low = choose|bucket: int| 0 <= bucket < front.len() && front[bucket] == smallest(front);
        let high = choose|bucket: int| 0 <= bucket < front.len() && front[bucket] == largest(front);
        assert(counts[low] == front[low]);
        assert(counts[high] == front[high]);
        let last = counts.len() - 1;
        assert(counts[last] == counts.last());
        assert(counts[low] == smallest(counts) || counts[last] == smallest(counts));
        assert(counts[high] == largest(counts) || counts[last] == largest(counts));
    } else {
        assert(counts[0] == smallest(counts));
        assert(counts[0] == largest(counts));
    }
}

/// The uniformity check accepts exactly the counts that are evenly spread.
pub proof fn lemma_verdict_iff_evenly_spread(counts: Seq<u32>)
    requires
        counts.len() > 0,
    ensures
        distribution_verdict(counts) is Ok <==> evenly_spread(counts),
{
    lemma_extremes(counts);
}

/// Checks that every bucket holds more than 900 and fewer than 1100 digests,
/// and reports the least and the greatest count if one does not.
pub fn assert_evenly_spread(counts: &[u32]) -> (outcome: Result<(), DistributionFailure>)
    requires
        counts.len() > 0,
    ensures
        outcome == distribution_verdict(counts@),
        outcome is Ok <==> evenly_spread(counts@),
{
    let mut min: u32 = counts[0];
    let mut max: u32 = counts[0];
    let mut bucket: usize = 1;
    assert(counts@.take(1) =~= seq![counts@[0]]);
    while bucket < counts.len()
        invariant
            1 <= bucket <= counts.len(),
            min == smallest(counts@.take(bucket as int)),
            max == largest(counts@.take(bucket as int)),
        decreases counts.len() - bucket,
    {
        assert(counts@.take(bucket + 1).drop_last() =~= counts@.take(bucket as int));
        if counts[bucket] < min {
            min = counts[bucket];
        }
        if counts[bucket] > max {
            max = counts[bucket];
        }
        bucket += 1;
    }
    assert(counts@.take(bucket as int) =~= counts@);
    proof {
        lemma_verdict_iff_evenly_spread(counts@);
    }
    if max < 1100 && min > 900 {
        Ok(())
    } else {
        Err(DistributionFailure { min, max })
    }
}

/// No bucket holds more digests than there are.
pub proof fn lemma_occupancy_bound(scenario: Scenario, digests: Seq<u64>, bucket: int)
    ensures
        scenario.occupancy(digests, bucket) <= digests.len(),
    decreases digests.len(),
{
    if digests.len() > 0 {
        lemma_occupancy_bound(scenario, digests.drop_last(), bucket);
    }
}

/// Every digest is counted in one of the buckets.
pub proof fn lemma_bucket_in_range(scenario: Scenario, digest: u64)
    requires
        scenario.buckets > 0,
    ensures
        0 <= scenario.bucket_of(digest) < scenario.buckets,
{
    let mask = (scenario.buckets - 1) as u64;
    assert(digest & mask <= mask) by (bit_vector);
}

/// The sum of the counts.
pub open spec fn total(counts: Seq<u32>) -> nat
    decreases counts.len(),
{
    if counts.len() == 0 {
        0
    } else {
        total(counts.drop_last()) + counts.last() as nat
    }
}

/// Counting one more in one bucket adds one to the sum.
proof fn lemma_total_after_one_more(before: Seq<u32>, after: Seq<u32>, bucket: int)
    requires
        0 <= bucket < before.len(),
        after.len() == before.len(),
        after[bucket] == before[bucket] + 1,
        forall|other: int| 0 <= other < before.len() && other != bucket ==> after[other] == before[other],
    ensures
        total(after) == total(before) + 1,
    decreases before.len(),
{
    if bucket == before.len() - 1 {
        assert(after.drop_last() =~= before.drop_last());
    } else {
        lemma_total_after_one_more(before.drop_last(), after.drop_last(), bucket);
    }
}

/// Counts that are all zero sum to zero.
proof fn lemma_total_of_zeros(counts: Seq<u32>)
    requires
        forall|bucket: int| 0 <= bucket < counts.len() ==> counts[bucket] == 0,
    ensures
        total(counts) == 0,
    decreases counts.len(),
{
    if counts.len() > 0 {
        lemma_total_of_zeros(counts.drop_last());
    }
}

/// Each digest adds to exactly one count: the counts sum to the number of
/// digests.
pub proof fn lemma_every_digest_is_counted_once(scenario: Scenario, digests: Seq<u64>)
    requires
        scenario.buckets > 0,
        digests.len() <= u32::MAX,
    ensures
        total(scenario.histogram(digests)) == digests.len(),
    decreases digests.len(),
{
    if digests.len() == 0 {
        lemma_total_of_zeros(scenario.histogram(digests));
    } else {
        let front = digests.drop_last();
        let bucket = scenario.bucket_of(digests.last());
        lemma_every_digest_is_counted_once(scenario, front);
        lemma_bucket_in_range(scenario, digests.last());
        assert forall|other: int| 0 <= other < scenario.buckets implies scenario.occupancy(
            digests,
            other,
        ) <= u32::MAX by {
            lemma_occupancy_bound(scenario, digests, other);
        }
        lemma_total_after_one_more(
            scenario.histogram(front),
            scenario.histogram(digests),
            bucket,
        );
    }
}

/// For 32 and for 256 buckets, masking the digest and taking its remainder
/// find the same bucket.
pub proof fn lemma_mask_is_remainder(digest: u64)
    ensures
        digest & 31 == digest % 32,
        digest & 255 == digest % 256,
{
    assert(digest & 31 == digest % 32) by (bit_vector);
    assert(digest & 255 == digest % 256) by (bit_vector);
}

/// Finds the bucket in which a digest is counted.
pub fn bucket_index(scenario: Scenario, digest: u64) -> (index: usize)
    requires
        scenario.buckets > 0,
    ensures
        index == scenario.bucket_of(digest),
        index < scenario.buckets,
{
    let buckets: u64 = scenario.buckets as u64;
    proof {
        lemma_bucket_in_range(scenario, digest);
    }
    if scenario.by_mask {
        (digest & (buckets - 1)) as usize
    } else {
        (digest % buckets) as usize
    }
}

/// `digests` may be the digests of the samples of the scenario, in order.
pub open spec fn may_observe<T: Accumulator, F: Fn() -> T>(
    hasher: F,
    scenario: Scenario,
    digests: Seq<u64>,
) -> bool {
    &&& digests.len() == scenario.samples
    &&& forall|index: int|
        0 <= index < digests.len() ==> may_hash(
            hasher,
            scenario.sample(index as nat),
            #[trigger] digests[index],
        )
}

/// `outcome` may be what the uniformity check answers for the scenario.
pub open spec fn may_judge_scenario<T: Accumulator, F: Fn() -> T>(
    hasher: F,
    scenario: Scenario,
    outcome: Result<(), DistributionFailure>,
) -> bool {
    exists|digests: Seq<u64>|
        #[trigger] may_observe(hasher, scenario, digests) && outcome == distribution_verdict(
            scenario.histogram(digests),
        )
}

/// Hashes the samples of one scenario, counts the digests in their buckets and
/// checks that the counts are evenly spread.
pub fn bucket_distribution<T: Accumulator>(hasher: &impl Fn() -> T, scenario: Scenario) -> (outcome:
    Result<(), DistributionFailure>)
    requires
        hasher.requires(()),
        scenario.is_valid(),
    ensures
        may_judge_scenario(*hasher, scenario, outcome),
{
    let mut buckets: Vec<u32> = Vec::new();
    let mut bucket: u32 = 0;
    while bucket < scenario.buckets
        invariant
            bucket <= scenario.buckets,
            buckets@.len() == bucket,
            forall|b: int| 0 <= b < bucket ==> buckets@[b] == 0,
        decreases scenario.buckets - bucket,
    {
        buckets.push(0);
        bucket += 1;
    }
    let ghost mut digests: Seq<u64> = Seq::empty();
    let mut i: u32 = 0;
    while i < scenario.samples
        invariant
            i <= scenario.samples,
            hasher.requires(()),
            scenario.is_valid(),
            digests.len() == i,
            forall|index: int|
                0 <= index < i ==> may_hash(
                    *hasher,
                    scenario.sample(index as nat),
                    #[trigger] digests[index],
                ),
            buckets@.len() == scenario.buckets,
            forall|b: int|
                0 <= b < scenario.buckets ==> #[trigger] buckets@[b] == scenario.occupancy(
                    digests,
                    b,
                ),
        decreases scenario.samples - i,
    {
        assert(i * scenario.stride <= scenario.samples * scenario.stride) by (nonlinear_arith)
            requires
                i <= scenario.samples,
        ;
        let number: u32 = i * scenario.stride;
        let bytes: Vec<u8> = to_le_bytes(number as u128, 4);
        let value: u64 = hash(bytes.as_slice(), hasher);
        let index: usize = bucket_index(scenario, value);
        proof {
            lemma_occupancy_bound(scenario, digests, index as int);
        }
        let count: u32 = buckets[index];
        buckets.set(index, count + 1);
        proof {
            let before = digests;
            digests = digests.push(value);
            assert(digests.drop_last() =~= before);
            assert(digests.last() == value);
        }
        i += 1;
    }
    assert(buckets@ =~= scenario.histogram(digests));
    assert(may_observe(*hasher, scenario, digests));
    assert_evenly_spread(buckets.as_slice())
}

/// The four scenarios of the distribution test: 32000 and 256000 consecutive
/// integers into 32 and 256 buckets by mask, then 32000 integers that are
/// 32 * 1024 apart and 256000 integers that are 256 apart into 32 and 256
/// buckets by remainder.
pub open spec fn scenarios() -> Seq<Scenario> {
    seq![
        Scenario { samples: 32000, stride: 1, buckets: 32, by_mask: true },
        Scenario { samples: 256000, stride: 1, buckets: 256, by_mask: true },
        Scenario { samples: 32000, stride: 32768, buckets: 32, by_mask: false },
        Scenario { samples: 256000, stride: 256, buckets: 256, by_mask: false },
    ]
}

/// The scenario of the distribution test at `index`.
pub fn scenario_at(index: usize) -> (scenario: Scenario)
    requires
        index < 4,
    ensures
        scenario == scenarios()[index as int],
        scenario.is_valid(),
{
    if index == 0 {
        Scenario { samples: 32000, stride: 1, buckets: 32, by_mask: true }
    } else if index == 1 {
        Scenario { samples: 256000, stride: 1, buckets: 256, by_mask: true }
    } else if index == 2 {
        Scenario { samples: 32000, stride: 32 * 1024, buckets: 32, by_mask: false }
    } else {
        Scenario { samples: 256000, stride: 256, buckets: 256, by_mask: false }
    }
}

/// The uniformity check may accept each of the first `count` scenarios.
pub open spec fn scenarios_pass_before<T: Accumulator, F: Fn() -> T>(hasher: F, count: int) -> bool {
    forall|index: int|
        0 <= index < count && index < 4 ==> #[trigger] may_judge_scenario(
            hasher,
            scenarios()[index],
            Ok(()),
        )
}

/// Runs the four distribution scenarios in order and stops at the first one
/// whose bucket counts are not evenly spread.
pub fn test_bucket_distributin<T: Accumulator>(hasher: impl Fn() -> T) -> (outcome: Result<
    (),
    DistributionFailure,
>)
    requires
        hasher.requires(()),
    ensures
        match outcome {
            Ok(()) => scenarios_pass_before(hasher, 4),
            Err(failure) => exists|index: int|
                0 <= index < 4 && scenarios_pass_before(hasher, index)
                    && #[trigger] may_judge_scenario(hasher, scenarios()[index], Err(failure)),
        },
{
    let mut index: usize = 0;
    while index < 4
        invariant
            index <= 4,
            hasher.requires(()),
            scenarios_pass_before(hasher, index as int),
        decreases 4 - index,
    {
        let judged: Result<(), DistributionFailure> = bucket_distribution(
            &hasher,
            scenario_at(index),
        );
        assert(may_judge_scenario(hasher, scenarios()[index as int], judged));
        if let Err(failure) = judged {
            return Err(failure);
        }
        index += 1;
    }
    Ok(())
}

} // verus!
