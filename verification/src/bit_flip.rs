//! Avalanche: setting one bit of the input changes the digest thoroughly.
use crate::accumulator::{hash, may_hash, Accumulator};
use crate::diffusion::{assert_sufficiently_different, diffusion_verdict, DiffusionFailure};
use crate::encoding::{le_bytes, to_le_bytes};
use vstd::prelude::*;

verus! {

/// The integer in which bit `position` is set and no other.
pub open spec fn single_bit(position: u32) -> u128 {
    1u128 << position
}

/// `outcome` may be what the diffusion oracle, with tolerance 2, answers for
/// `baseline` and the digest of the `width`-byte integer in which only bit
/// `position` is set.
pub open spec fn may_judge_bit<T: Accumulator, F: Fn() -> T>(
    hasher: F,
    width: nat,
    baseline: u64,
    position: u32,
    outcome: Result<(), DiffusionFailure>,
) -> bool {
    exists|flipped: u64|
        #[trigger] may_hash(hasher, le_bytes(single_bit(position), width), flipped) && outcome
            == diffusion_verdict(baseline, flipped, 2)
}

/// The oracle may accept every bit position below `positions`.
pub open spec fn bits_pass_before<T: Accumulator, F: Fn() -> T>(
    hasher: F,
    width: nat,
    baseline: u64,
    positions: u32,
) -> bool {
    forall|position: u32|
        position < positions ==> #[trigger] may_judge_bit(
            hasher,
            width,
            baseline,
            position,
            Ok(()),
        )
}

/// `outcome` may be the result of the avalanche test on integers of `width`
/// bytes: the digest of zero is the baseline, the bit positions are taken
/// from the lowest up, and the first one that the oracle rejects ends the
/// test.
pub open spec fn may_judge_width<T: Accumulator, F: Fn() -> T>(
    hasher: F,
    width: nat,
    outcome: Result<(), DiffusionFailure>,
) -> bool {
    exists|baseline: u64|
        #[trigger] may_hash(hasher, le_bytes(0, width), baseline) && match outcome {
            Ok(()) => bits_pass_before(hasher, width, baseline, (8 * width) as u32),
            Err(failure) => exists|position: u32|
                position < 8 * width && bits_pass_before(hasher, width, baseline, position)
                    && #[trigger] may_judge_bit(hasher, width, baseline, position, Err(failure)),
        }
}

/// The avalanche test on integers of `width` bytes, at most 16.
pub fn single_bit_flip<T: Accumulator>(hasher: &impl Fn() -> T, width: usize) -> (outcome: Result<
    (),
    DiffusionFailure,
>)
    requires
        hasher.requires(()),
        width <= 16,
    ensures
        may_judge_width(*hasher, width as nat, outcome),
{
    let zero: Vec<u8> = to_le_bytes(0, width);
    let compare_value: u64 = hash(zero.as_slice(), hasher);
    let size: u32 = 8 * width as u32;
    let mut pos: u32 = 0;
    while pos < size
        invariant
            pos <= size,
            size == 8 * width,
            width <= 16,
            hasher.requires(()),
            may_hash(*hasher, le_bytes(0, width as nat), compare_value),
            bits_pass_before(*hasher, width as nat, compare_value, pos),
        decreases size - pos,
    {
        let flipped: Vec<u8> = to_le_bytes(1u128 << pos, width);
        let test_value: u64 = hash(flipped.as_slice(), hasher);
        assert(may_hash(*hasher, le_bytes(single_bit(pos), width as nat), test_value));
        let judged: Result<(), DiffusionFailure> = assert_sufficiently_different(
            compare_value,
            test_value,
            2,
        );
        assert(may_judge_bit(*hasher, width as nat, compare_value, pos, judged));
        if let Err(failure) = judged {
            return Err(failure);
        }
        pos += 1;
    }
    Ok(())
}

/// For integers of 32, 64 and 128 bits, compares the digest of zero with the
/// digest of each integer that has a single bit set, under tolerance 2. Stops
/// at the first width and bit for which the oracle rejects the pair.
pub fn test_single_bit_flip<T: Accumulator>(hasher: impl Fn() -> T) -> (outcome: Result<
    (),
    DiffusionFailure,
>)
    requires
        hasher.requires(()),
    ensures
        match outcome {
            Ok(()) => {
                &&& may_judge_width(hasher, 4, Ok(()))
                &&& may_judge_width(hasher, 8, Ok(()))
                &&& may_judge_width(hasher, 16, Ok(()))
            },
            Err(failure) => {
                ||| may_judge_width(hasher, 4, Err(failure))
                ||| may_judge_width(hasher, 4, Ok(())) && may_judge_width(hasher, 8, Err(failure))
                ||| may_judge_width(hasher, 4, Ok(())) && may_judge_width(hasher, 8, Ok(()))
                    && may_judge_width(hasher, 16, Err(failure))
            },
        },
{
    if let Err(failure) = single_bit_flip(&hasher, 4) {
        return Err(failure);
    }
    if let Err(failure) = single_bit_flip(&hasher, 8) {
        return Err(failure);
    }
    single_bit_flip(&hasher, 16)
}

} // verus!
