//! The seeds matter: changing a seed changes the digest thoroughly.
use crate::accumulator::{hash_with_keys, may_hash_with_keys, Accumulator};
use crate::diffusion::{assert_pairwise_different, pairwise_verdict, DiffusionFailure};
use vstd::prelude::*;
use vstd::string::StringSliceAdditionalSpecFns;

verus! {

/// `digests` may be the digests of `bytes` under the seed pairs `seeds`, one
/// fresh accumulator for each pair, in the order of the pairs.
pub open spec fn may_hash_with_each<T: Accumulator, F: Fn(u64, u64) -> T>(
    constructor: F,
    seeds: Seq<(u64, u64)>,
    bytes: Seq<u8>,
    digests: Seq<u64>,
) -> bool {
    &&& digests.len() == seeds.len()
    &&& forall|i: int|
        0 <= i < seeds.len() ==> may_hash_with_keys(
            constructor,
            seeds[i].0,
            seeds[i].1,
            bytes,
            #[trigger] digests[i],
        )
}

/// Hashes one message once for each pair of seeds.
pub fn hash_with_each<T: Accumulator>(
    bytes: &[u8],
    constructor: &impl Fn(u64, u64) -> T,
    seeds: &[(u64, u64)],
) -> (digests: Vec<u64>)
    requires
        forall|key0: u64, key1: u64| constructor.requires((key0, key1)),
    ensures
        may_hash_with_each(*constructor, seeds@, bytes@, digests@),
{
    let mut digests: Vec<u64> = Vec::new();
    let mut i: usize = 0;
    while i < seeds.len()
        invariant
            i <= seeds.len(),
            forall|key0: u64, key1: u64| constructor.requires((key0, key1)),
            may_hash_with_each(*constructor, seeds@.take(i as int), bytes@, digests@),
        decreases seeds.len() - i,
    {
        let digest: u64 = hash_with_keys(bytes, constructor, seeds[i].0, seeds[i].1);
        digests.push(digest);
        i += 1;
    }
    assert(seeds@.take(i as int) == seeds@);
    digests
}

/// The four seed pairs of the key sensitivity test.
pub open spec fn low_seed_pairs() -> Seq<(u64, u64)> {
    seq![(0u64, 0u64), (0u64, 1u64), (1u64, 0u64), (1u64, 1u64)]
}

/// Hashes `"test"` under the seed pairs `(0,0)`, `(0,1)`, `(1,0)` and `(1,1)`
/// and applies the diffusion oracle, with tolerance 1, to every two of the four
/// digests.
pub fn test_keys_change_output<T: Accumulator>(constructor: impl Fn(u64, u64) -> T) -> (outcome:
    Result<(), DiffusionFailure>)
    requires
        forall|key0: u64, key1: u64| constructor.requires((key0, key1)),
    ensures
        exists|digests: Seq<u64>|
            may_hash_with_each(constructor, low_seed_pairs(), "test".spec_bytes(), digests)
                && outcome == pairwise_verdict(digests, 1),
{
    let seeds: Vec<(u64, u64)> = vec![(0u64, 0u64), (0u64, 1u64), (1u64, 0u64), (1u64, 1u64)];
    assert(seeds@ == low_seed_pairs());
    let digests: Vec<u64> = hash_with_each("test".as_bytes(), &constructor, seeds.as_slice());
    assert_pairwise_different(digests.as_slice(), 1)
}

/// The seed pairs of the key bit test for one bit: no bit set, the bit set in
/// the second seed, the bit set in the first seed.
pub open spec fn flipped_seed_pairs(bit: u32) -> Seq<(u64, u64)> {
    seq![(0u64, 0u64), (0u64, 1u64 << bit), (1u64 << bit, 0u64)]
}

/// The messages of the key bit test: one shorter than a block, one of one
/// block, one of two.
pub open spec fn flip_messages() -> Seq<Seq<u8>> {
    seq!["1234".spec_bytes(), "12345678".spec_bytes(), "1234567812345678".spec_bytes()]
}

/// `outcome` may be what the diffusion oracle, with tolerance 2, answers for
/// the three digests of `bytes` under the seed pairs of `bit`.
pub open spec fn may_judge_key_bit<T: Accumulator, F: Fn(u64, u64) -> T>(
    constructor: F,
    bit: u32,
    bytes: Seq<u8>,
    outcome: Result<(), DiffusionFailure>,
) -> bool {
    exists|digests: Seq<u64>|
        #[trigger] may_hash_with_each(constructor, flipped_seed_pairs(bit), bytes, digests)
            && outcome == pairwise_verdict(digests, 2)
}

/// The key bit test for one bit and one message.
pub fn single_key_bit_flip<T: Accumulator>(
    constructor: &impl Fn(u64, u64) -> T,
    bit: u32,
    bytes: &[u8],
) -> (outcome: Result<(), DiffusionFailure>)
    requires
        bit < 64,
        forall|key0: u64, key1: u64| constructor.requires((key0, key1)),
    ensures
        may_judge_key_bit(*constructor, bit, bytes@, outcome),
{
    let seeds: Vec<(u64, u64)> = vec![(0u64, 0u64), (0u64, 1u64 << bit), (1u64 << bit, 0u64)];
    assert(seeds@ == flipped_seed_pairs(bit));
    let digests: Vec<u64> = hash_with_each(bytes, constructor, seeds.as_slice());
    assert_pairwise_different(digests.as_slice(), 2)
}

/// The key bit test passes for every bit below `bits` and, at `bits` itself,
/// for every message before `messages`.
pub open spec fn key_bits_pass_before<T: Accumulator, F: Fn(u64, u64) -> T>(
    constructor: F,
    bits: u32,
    messages: int,
) -> bool {
    forall|bit: u32, message: int|
        0 <= message < 3 && (bit < bits || (bit == bits && message < messages))
            ==> #[trigger] may_judge_key_bit(
            constructor,
            bit,
            flip_messages()[message],
            Ok(()),
        )
}

/// For each of the 64 bit positions, hashes three messages under the seed
/// pairs `(0,0)`, `(0, 1 << bit)` and `(1 << bit, 0)` and applies the diffusion
/// oracle, with tolerance 2, to every two of the three digests of a message.
/// Stops at the first bit and message for which the oracle rejects a pair.
pub fn test_single_key_bit_flip<T: Accumulator>(constructor: impl Fn(u64, u64) -> T) -> (outcome:
    Result<(), DiffusionFailure>)
    requires
        forall|key0: u64, key1: u64| constructor.requires((key0, key1)),
    ensures
        match outcome {
            Ok(()) => key_bits_pass_before(constructor, 64, 0),
            Err(failure) => exists|bit: u32, message: int|
                bit < 64 && 0 <= message < 3 && key_bits_pass_before(constructor, bit, message)
                    && #[trigger] may_judge_key_bit(
                    constructor,
                    bit,
                    flip_messages()[message],
                    Err(failure),
                ),
        },
{
    let mut bit: u32 = 0;
    while bit < 64
        invariant
            bit <= 64,
            forall|key0: u64, key1: u64| constructor.requires((key0, key1)),
            key_bits_pass_before(constructor, bit, 0),
        decreases 64 - bit,
    {
        let short: Result<(), DiffusionFailure> = single_key_bit_flip(
            &constructor,
            bit,
            "1234".as_bytes(),
        );
        if let Err(failure) = short {
            assert(may_judge_key_bit(constructor, bit, flip_messages()[0], Err(failure)));
            return Err(failure);
        }
        assert(may_judge_key_bit(constructor, bit, flip_messages()[0], Ok(())));
        assert(key_bits_pass_before(constructor, bit, 1));
        let block: Result<(), DiffusionFailure> = single_key_bit_flip(
            &constructor,
            bit,
            "12345678".as_bytes(),
        );
        if let Err(failure) = block {
            assert(may_judge_key_bit(constructor, bit, flip_messages()[1], Err(failure)));
            return Err(failure);
        }
        assert(may_judge_key_bit(constructor, bit, flip_messages()[1], Ok(())));
        assert(key_bits_pass_before(constructor, bit, 2));
        let long: Result<(), DiffusionFailure> = single_key_bit_flip(
            &constructor,
            bit,
            "1234567812345678".as_bytes(),
        );
        if let Err(failure) = long {
            assert(may_judge_key_bit(constructor, bit, flip_messages()[2], Err(failure)));
            return Err(failure);
        }
        assert(may_judge_key_bit(constructor, bit, flip_messages()[2], Ok(())));
        assert(key_bits_pass_before(constructor, (bit + 1) as u32, 0));
        bit += 1;
    }
    Ok(())
}

} // verus!
