//! Padding matters: appending copies of one byte to a message changes the
//! digest, however many copies there are.
use crate::accumulator::{hash, may_hash, Accumulator};
use crate::diffusion::{Defect, DiffusionFailure};
use crate::metrics::{
    bit_distance, count_same_bytes_and_nibbles, hamming_distance, same_byte_count,
    same_nibble_count,
};
use vstd::prelude::*;
use vstd::slice::slice_to_vec;
use vstd::string::StringSliceAdditionalSpecFns;

verus! {

/// `base` followed by `copies` copies of the byte `pad`.
pub open spec fn padded(base: Seq<u8>, pad: u8, copies: nat) -> Seq<u8> {
    base + Seq::new(copies, |i: int| pad)
}

/// The digest of a padded message is different enough from the digest of the
/// message itself: at most 2 bytes and 8 nibbles agree, and more than 10 bits
/// differ.
pub open spec fn padding_changes_digest(short: u64, long: u64) -> bool {
    &&& same_byte_count(short, long) <= 2
    &&& same_nibble_count(short, long) <= 8
    &&& bit_distance(short, long) > 10
}

/// What the padding test answers for the digest of a message and the digest
/// of a padded form of it: the first bound that the pair breaks, the bounds
/// taken in the order bytes, nibbles, bits.
pub open spec fn padding_verdict(short: u64, long: u64) -> Result<(), DiffusionFailure> {
    if same_byte_count(short, long) > 2 {
        Err(
            DiffusionFailure {
                left: short,
                right: long,
                defect: Defect::SameBytes { count: same_byte_count(short, long) as u32 },
            },
        )
    } else if same_nibble_count(short, long) > 8 {
        Err(
            DiffusionFailure {
                left: short,
                right: long,
                defect: Defect::SameNibbles { count: same_nibble_count(short, long) as u32 },
            },
        )
    } else if bit_distance(short, long) <= 10 {
        Err(
            DiffusionFailure {
                left: short,
                right: long,
                defect: Defect::FlippedBits { count: bit_distance(short, long) as u32 },
            },
        )
    } else {
        Ok(())
    }
}

/// Compares the digest of a message with the digest of a padded form of it.
pub fn assert_padding_changes_digest(short: u64, long: u64) -> (outcome: Result<
    (),
    DiffusionFailure,
>)
    ensures
        outcome == padding_verdict(short, long),
        outcome is Ok <==> padding_changes_digest(short, long),
{
    let (same_bytes, same_nibbles) = count_same_bytes_and_nibbles(short, long);
    if same_bytes > 2 {
        return Err(
            DiffusionFailure {
                left: short,
                right: long,
                defect: Defect::SameBytes { count: same_bytes as u32 },
            },
        );
    }
    if same_nibbles > 8 {
        return Err(
            DiffusionFailure {
                left: short,
                right: long,
                defect: Defect::SameNibbles { count: same_nibbles as u32 },
            },
        );
    }
    let flipped_bits: u32 = hamming_distance(short, long);
    if !(flipped_bits > 10) {
        return Err(
            DiffusionFailure {
                left: short,
                right: long,
                defect: Defect::FlippedBits { count: flipped_bits },
            },
        );
    }
    Ok(())
}

/// `outcome` may be what the padding test answers for `short` and the digest
/// of `base` with `copies` copies of `pad` appended.
pub open spec fn may_judge_padding<T: Accumulator, F: Fn() -> T>(
    hasher: F,
    base: Seq<u8>,
    pad: u8,
    short: u64,
    copies: nat,
    outcome: Result<(), DiffusionFailure>,
) -> bool {
    exists|long: u64|
        #[trigger] may_hash(hasher, padded(base, pad, copies), long) && outcome == padding_verdict(
            short,
            long,
        )
}

/// The padding test may pass for 1 to `copies` copies of `pad`.
pub open spec fn paddings_pass_up_to<T: Accumulator, F: Fn() -> T>(
    hasher: F,
    base: Seq<u8>,
    pad: u8,
    short: u64,
    copies: nat,
) -> bool {
    forall|n: nat|
        1 <= n <= copies ==> #[trigger] may_judge_padding(hasher, base, pad, short, n, Ok(()))
}

/// `outcome` may be the result of the padding test on one message and one pad
/// byte: the digest of the message is compared with the digests of the message
/// followed by 1, 2, ... 128 copies of the pad byte, and the first digest that
/// is too much like it ends the test.
pub open spec fn may_judge_base<T: Accumulator, F: Fn() -> T>(
    hasher: F,
    base: Seq<u8>,
    pad: u8,
    outcome: Result<(), DiffusionFailure>,
) -> bool {
    exists|short: u64|
        #[trigger] may_hash(hasher, base, short) && match outcome {
            Ok(()) => paddings_pass_up_to(hasher, base, pad, short, 128),
            Err(failure) => exists|copies: nat|
                1 <= copies <= 128 && paddings_pass_up_to(
                    hasher,
                    base,
                    pad,
                    short,
                    (copies - 1) as nat,
                ) && #[trigger] may_judge_padding(hasher, base, pad, short, copies, Err(failure)),
        }
}

/// The padding test on one message and one pad byte.
pub fn padding_doesnot_collide<T: Accumulator>(hasher: &impl Fn() -> T, base: &[u8], pad: u8) -> (outcome:
    Result<(), DiffusionFailure>)
    requires
        hasher.requires(()),
        base.len() + 128 <= usize::MAX,
    ensures
        may_judge_base(*hasher, base@, pad, outcome),
{
    let value: u64 = hash(base, hasher);
    let mut string: Vec<u8> = slice_to_vec(base);
    let mut num: usize = 1;
    while num <= 128
        invariant
            1 <= num <= 129,
            hasher.requires(()),
            base.len() + 128 <= usize::MAX,
            string@ == padded(base@, pad, (num - 1) as nat),
            may_hash(*hasher, base@, value),
            paddings_pass_up_to(*hasher, base@, pad, value, (num - 1) as nat),
        decreases 129 - num,
    {
        string.push(pad);
        assert(string@ =~= padded(base@, pad, num as nat));
        let long: u64 = hash(string.as_slice(), hasher);
        let judged: Result<(), DiffusionFailure> = assert_padding_changes_digest(value, long);
        assert(may_judge_padding(*hasher, base@, pad, value, num as nat, judged));
        if let Err(failure) = judged {
            return Err(failure);
        }
        num += 1;
    }
    Ok(())
}

/// The four messages of the padding test.
pub open spec fn padding_bases() -> Seq<Seq<u8>> {
    seq![
        "".spec_bytes(),
        "1234".spec_bytes(),
        "12345678".spec_bytes(),
        "1234567812345678".spec_bytes(),
    ]
}

/// The message of the padding test at `index`.
pub fn padding_base(index: usize) -> (base: &'static str)
    requires
        index < 4,
    ensures
        base.spec_bytes() == padding_bases()[index as int],
{
    if index == 0 {
        ""
    } else if index == 1 {
        "1234"
    } else if index == 2 {
        "12345678"
    } else {
        "1234567812345678"
    }
}

/// The padding test may pass for every pad byte below `pads` with every
/// message and, for the pad byte `pads` itself, with the messages before
/// `bases`.
pub open spec fn bases_pass_before<T: Accumulator, F: Fn() -> T>(
    hasher: F,
    pads: int,
    bases: int,
) -> bool {
    forall|pad: u8, base: int|
        0 <= base < 4 && (pad < pads || (pad == pads && base < bases)) ==> #[trigger] may_judge_base(
            hasher,
            padding_bases()[base],
            pad,
            Ok(()),
        )
}

/// For each of the 128 seven-bit byte values and each of four messages of 0,
/// 4, 8 and 16 bytes, compares the digest of the message with the digests of
/// the message followed by 1 to 128 copies of the byte. Stops at the first
/// padded message whose digest is too much like that of the message.
pub fn test_padding_doesnot_collide<T: Accumulator>(hasher: impl Fn() -> T) -> (outcome: Result<
    (),
    DiffusionFailure,
>)
    requires
        hasher.requires(()),
    ensures
        match outcome {
            Ok(()) => bases_pass_before(hasher, 128, 0),
            Err(failure) => exists|pad: u8, base: int|
                pad < 128 && 0 <= base < 4 && bases_pass_before(hasher, pad as int, base)
                    && #[trigger] may_judge_base(hasher, padding_bases()[base], pad, Err(failure)),
        },
{
    let mut c: u8 = 0;
    while c < 128
        invariant
            c <= 128,
            hasher.requires(()),
            bases_pass_before(hasher, c as int, 0),
        decreases 128 - c,
    {
        let mut index: usize = 0;
        while index < 4
            invariant
                c < 128,
                index <= 4,
                hasher.requires(()),
                bases_pass_before(hasher, c as int, index as int),
            decreases 4 - index,
        {
            let string: &str = padding_base(index);
            let bytes: &[u8] = string.as_bytes();
            assert(bytes.len() <= 16) by {
                reveal_strlit("");
                reveal_strlit("1234");
                reveal_strlit("12345678");
                reveal_strlit("1234567812345678");
                vstd::string::is_ascii_spec_bytes("");
                vstd::string::is_ascii_spec_bytes("1234");
                vstd::string::is_ascii_spec_bytes("12345678");
                vstd::string::is_ascii_spec_bytes("1234567812345678");
            }
            let judged: Result<(), DiffusionFailure> = padding_doesnot_collide(&hasher, bytes, c);
            assert(may_judge_base(hasher, padding_bases()[index as int], c, judged));
            if let Err(failure) = judged {
                return Err(failure);
            }
            assert(bases_pass_before(hasher, c as int, index + 1));
            index += 1;
        }
        assert(bases_pass_before(hasher, c + 1, 0));
        c += 1;
    }
    Ok(())
}

} // verus!
