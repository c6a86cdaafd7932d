//! The diffusion oracle: decides whether two digests are as different as the
//! digests of two unrelated inputs should be.
use crate::metrics::{
    bit_distance, count_same_bytes_and_nibbles, hamming_distance,
    lemma_distances_are_symmetric, lemma_distances_to_itself, lemma_rotated_distance_swapped,
    lemma_rotation_by_zero, lemma_same_counts_below, rotated_bit_distance,
    rotated_hamming_distance, same_byte_count, same_nibble_count,
};
use vstd::prelude::*;

verus! {

/// The bound that a pair of digests broke, with the value that broke it.
#[derive(Clone, Copy, Debug, PartialEq, Eq)]
pub enum Defect {
    /// More byte positions agree than the tolerance allows.
    SameBytes { count: u32 },
    /// More nibble positions agree than three times the tolerance.
    SameNibbles { count: u32 },
    /// The number of differing bits is not strictly between 12 and 52.
    FlippedBits { count: u32 },
    /// After rotating the second digest left by `rotate` places, the number of
    /// differing bits is not strictly between 10 and 54.
    RotatedFlippedBits { rotate: u32, count: u32 },
}

/// A pair of digests that are too much alike, and in what respect.
#[derive(Clone, Copy, Debug, PartialEq, Eq)]
pub struct DiffusionFailure {
    pub left: u64,
    pub right: u64,
    pub defect: Defect,
}

/// Whether a rotated Hamming distance is acceptable.
pub open spec fn rotation_in_range(a: u64, b: u64, rotate: u32) -> bool {
    10 < rotated_bit_distance(a, b, rotate) < 54
}

/// Two digests are sufficiently different under a tolerance when at most
/// `tolerance` bytes and `3 * tolerance` nibbles agree, strictly between 12 and
/// 52 bits differ, and for each of the 64 rotations of the second digest
/// strictly between 10 and 54 bits differ.
pub open spec fn sufficiently_different(a: u64, b: u64, tolerance: int) -> bool {
    &&& same_byte_count(a, b) <= tolerance
    &&& same_nibble_count(a, b) <= 3 * tolerance
    &&& 12 < bit_distance(a, b) < 52
    &&& forall|rotate: u32| rotate < 64 ==> #[trigger] rotation_in_range(a, b, rotate)
}

/// The least rotation from `from` upwards, and below 64, at which the rotated
/// Hamming distance is out of range.
pub open spec fn first_bad_rotation(a: u64, b: u64, from: nat) -> Option<u32>
    decreases 64 - from,
{
    if from >= 64 {
        None
    } else if !rotation_in_range(a, b, from as u32) {
        Some(from as u32)
    } else {
        first_bad_rotation(a, b, from + 1)
    }
}

/// The first bound that the pair breaks, the bounds taken in the order bytes,
/// nibbles, bits, rotations from 0 upwards; `None` when it breaks none.
pub open spec fn diffusion_defect(a: u64, b: u64, tolerance: int) -> Option<Defect> {
    if same_byte_count(a, b) > tolerance {
        Some(Defect::SameBytes { count: same_byte_count(a, b) as u32 })
    } else if same_nibble_count(a, b) > 3 * tolerance {
        Some(Defect::SameNibbles { count: same_nibble_count(a, b) as u32 })
    } else if !(12 < bit_distance(a, b) < 52) {
        Some(Defect::FlippedBits { count: bit_distance(a, b) as u32 })
    } else {
        match first_bad_rotation(a, b, 0) {
            Some(rotate) => Some(
                Defect::RotatedFlippedBits {
                    rotate,
                    count: rotated_bit_distance(a, b, rotate) as u32,
                },
            ),
            None => None,
        }
    }
}

/// What the oracle answers for a pair of digests.
pub open spec fn diffusion_verdict(a: u64, b: u64, tolerance: int) -> Result<
    (),
    DiffusionFailure,
> {
    match diffusion_defect(a, b, tolerance) {
        None => Ok(()),
        Some(defect) => Err(DiffusionFailure { left: a, right: b, defect }),
    }
}

/// `first_bad_rotation` finds a rotation that is out of range, with none
/// before it, or there is none from `from` on.
pub proof fn lemma_first_bad_rotation(a: u64, b: u64, from: nat)
    ensures
        match first_bad_rotation(a, b, from) {
            Some(rotate) => {
                &&& from <= rotate < 64
                &&& !rotation_in_range(a, b, rotate)
                &&& forall|r: u32| from <= r < rotate ==> rotation_in_range(a, b, r)
            },
            None => forall|r: u32| from <= r < 64 ==> rotation_in_range(a, b, r),
        },
    decreases 64 - from,
{
    if from < 64 && rotation_in_range(a, b, from as u32) {
        lemma_first_bad_rotation(a, b, from + 1);
    }
}

/// The oracle finds a defect exactly in the pairs that are not sufficiently
/// different.
pub proof fn lemma_defect_iff_not_sufficiently_different(a: u64, b: u64, tolerance: int)
    ensures
        diffusion_defect(a, b, tolerance) is None <==> sufficiently_different(a, b, tolerance),
        diffusion_verdict(a, b, tolerance) is Ok <==> sufficiently_different(a, b, tolerance),
{
    lemma_first_bad_rotation(a, b, 0);
}

/// What passes under one tolerance passes under every greater one.
pub proof fn lemma_tolerance_is_monotone(a: u64, b: u64, tolerance: int, greater: int)
    requires
        tolerance <= greater,
        sufficiently_different(a, b, tolerance),
    ensures
        sufficiently_different(a, b, greater),
{
}

/// The oracle does not depend on the tolerance once it is 8 or more: no more
/// than 8 bytes and 16 nibbles can agree.
pub proof fn lemma_tolerance_beyond_eight(a: u64, b: u64, tolerance: int)
    requires
        tolerance >= 8,
    ensures
        sufficiently_different(a, b, tolerance) == sufficiently_different(a, b, 8),
{
    lemma_same_counts_below(a, b, 8);
}

/// No digest is sufficiently different from itself, whatever the tolerance.
pub proof fn lemma_digest_is_like_itself(a: u64, tolerance: int)
    ensures
        !sufficiently_different(a, a, tolerance),
{
    lemma_distances_to_itself(a, 64);
}

/// Once the unrotated distance is within its bounds, rotation 0 is within
/// its wider bounds too: the oracle never names it.
pub proof fn lemma_rotation_zero_is_never_named(a: u64, b: u64, tolerance: int)
    ensures
        diffusion_defect(a, b, tolerance) matches Some(Defect::RotatedFlippedBits { rotate, .. })
            ==> rotate > 0,
{
    lemma_rotation_by_zero(a, b);
    lemma_first_bad_rotation(a, b, 0);
}

/// Whether two digests are sufficiently different does not depend on which
/// of them is taken first.
pub proof fn lemma_oracle_is_symmetric(a: u64, b: u64, tolerance: int)
    ensures
        sufficiently_different(a, b, tolerance) == sufficiently_different(b, a, tolerance),
{
    lemma_distances_are_symmetric(a, b, 8);
    lemma_distances_are_symmetric(a, b, 16);
    lemma_distances_are_symmetric(a, b, 64);
    assert forall|rotate: u32| rotate < 64 implies (#[trigger] rotation_in_range(a, b, rotate)
        == rotation_in_range(b, a, ((64 - rotate) % 64) as u32)) by {
        lemma_rotated_distance_swapped(a, b, rotate);
    }
    assert forall|rotate: u32| rotate < 64 implies (#[trigger] rotation_in_range(b, a, rotate)
        == rotation_in_range(a, b, ((64 - rotate) % 64) as u32)) by {
        lemma_rotated_distance_swapped(b, a, rotate);
    }
}

/// The diffusion oracle. Answers `Ok` when the two digests are sufficiently
/// different under `tolerance`, and otherwise names the first bound that they
/// break.
pub fn assert_sufficiently_different(a: u64, b: u64, tolerance: i32) -> (outcome: Result<
    (),
    DiffusionFailure,
>)
    ensures
        outcome == diffusion_verdict(a, b, tolerance as int),
        outcome is Ok <==> sufficiently_different(a, b, tolerance as int),
{
    proof {
        lemma_defect_iff_not_sufficiently_different(a, b, tolerance as int);
    }
    let (same_bytes, same_nibbles) = count_same_bytes_and_nibbles(a, b);
    if same_bytes > tolerance {
        return Err(
            DiffusionFailure { left: a, right: b, defect: Defect::SameBytes { count: same_bytes as u32 } },
        );
    }
    if same_nibbles as i64 > tolerance as i64 * 3 {
        return Err(
            DiffusionFailure {
                left: a,
                right: b,
                defect: Defect::SameNibbles { count: same_nibbles as u32 },
            },
        );
    }
    let flipped_bits: u32 = hamming_distance(a, b);
    if !(flipped_bits > 12 && flipped_bits < 52) {
        return Err(
            DiffusionFailure { left: a, right: b, defect: Defect::FlippedBits { count: flipped_bits } },
        );
    }
    let mut rotate: u32 = 0;
    while rotate < 64
        invariant
            rotate <= 64,
            same_byte_count(a, b) <= tolerance,
            same_nibble_count(a, b) <= 3 * tolerance,
            12 < bit_distance(a, b) < 52,
            first_bad_rotation(a, b, 0) == first_bad_rotation(a, b, rotate as nat),
        decreases 64 - rotate,
    {
        let flipped_bits2: u32 = rotated_hamming_distance(a, b, rotate);
        if !(flipped_bits2 > 10 && flipped_bits2 < 54) {
            return Err(
                DiffusionFailure {
                    left: a,
                    right: b,
                    defect: Defect::RotatedFlippedBits { rotate, count: flipped_bits2 },
                },
            );
        }
        rotate += 1;
    }
    Ok(())
}

/// Whether the digests at positions `i` and `j` are sufficiently different.
pub open spec fn pair_sufficiently_different(
    digests: Seq<u64>,
    tolerance: int,
    i: int,
    j: int,
) -> bool {
    sufficiently_different(digests[i], digests[j], tolerance)
}

/// Every two digests of the sequence are sufficiently different, the earlier
/// one taken as the first argument of the oracle.
pub open spec fn pairwise_sufficiently_different(digests: Seq<u64>, tolerance: int) -> bool {
    forall|i: int, j: int|
        0 <= i < j < digests.len() ==> #[trigger] pair_sufficiently_different(
            digests,
            tolerance,
            i,
            j,
        )
}

/// The failure of the first pair of positions that the oracle rejects, the
/// pairs `(i, j)` with `i < j` taken in lexicographic order from `(i, j)` on.
pub open spec fn first_pair_failure(digests: Seq<u64>, tolerance: int, i: nat, j: nat) -> Option<
    DiffusionFailure,
>
    decreases digests.len() - i, digests.len() - j,
{
    if i >= digests.len() {
        None
    } else if j >= digests.len() {
        first_pair_failure(digests, tolerance, i + 1, i + 2)
    } else {
        match diffusion_verdict(digests[i as int], digests[j as int], tolerance) {
            Err(failure) => Some(failure),
            Ok(()) => first_pair_failure(digests, tolerance, i, j + 1),
        }
    }
}

/// What the oracle answers for a sequence of digests that should differ pair
/// by pair.
pub open spec fn pairwise_verdict(digests: Seq<u64>, tolerance: int) -> Result<
    (),
    DiffusionFailure,
> {
    match first_pair_failure(digests, tolerance, 0, 1) {
        None => Ok(()),
        Some(failure) => Err(failure),
    }
}

/// Applies the diffusion oracle to every two of the digests, in lexicographic
/// order of their positions, and stops at the first pair that it rejects.
pub fn assert_pairwise_different(digests: &[u64], tolerance: i32) -> (outcome: Result<
    (),
    DiffusionFailure,
>)
    ensures
        outcome == pairwise_verdict(digests@, tolerance as int),
        outcome is Ok <==> pairwise_sufficiently_different(digests@, tolerance as int),
{
    let n: usize = digests.len();
    let mut i: usize = 0;
    while i < n
        invariant
            n == digests.len(),
            i <= n,
            first_pair_failure(digests@, tolerance as int, 0, 1) == first_pair_failure(
                digests@,
                tolerance as int,
                i as nat,
                (i + 1) as nat,
            ),
            forall|p: int, q: int|
                0 <= p < i && p < q < n ==> #[trigger] pair_sufficiently_different(
                    digests@,
                    tolerance as int,
                    p,
                    q,
                ),
        decreases n - i,
    {
        let mut j: usize = i + 1;
        while j < n
            invariant
                n == digests.len(),
                i < n,
                i < j <= n,
                first_pair_failure(digests@, tolerance as int, 0, 1) == first_pair_failure(
                    digests@,
                    tolerance as int,
                    i as nat,
                    j as nat,
                ),
                forall|p: int, q: int|
                    0 <= p < i && p < q < n ==> #[trigger] pair_sufficiently_different(
                        digests@,
                        tolerance as int,
                        p,
                        q,
                    ),
                forall|q: int|
                    i < q < j ==> #[trigger] pair_sufficiently_different(
                        digests@,
                        tolerance as int,
                        i as int,
                        q,
                    ),
            decreases n - j,
        {
            match assert_sufficiently_different(digests[i], digests[j], tolerance) {
                Err(failure) => {
                    assert(!pair_sufficiently_different(
                        digests@,
                        tolerance as int,
                        i as int,
                        j as int,
                    ));
                    return Err(failure);
                },
                Ok(()) => {},
            }
            j += 1;
        }
        i += 1;
    }
    Ok(())
}

} // verus!
