//! Distances between two 64-bit digests, taken as vectors of 8 bytes, of 16
//! nibbles and of 64 bits.
use crate::bits::{
    bit_at, lemma_ones_below_bound, lemma_rotated_left_and_back, lemma_rotated_left_bit,
    lemma_rotated_left_once_more, ones_below, rotated_left,
};
use vstd::prelude::*;

verus! {

/// Byte `i` of `x`; byte 0 is the least significant one.
pub open spec fn byte_at(x: u64, i: u64) -> u8 {
    ((x >> (8 * i) as u64) & 0xff) as u8
}

/// Nibble `i` of `x`; nibble 0 is the low half of byte 0, nibble 1 its high
/// half, and so on.
pub open spec fn nibble_at(x: u64, i: u64) -> u8 {
    ((x >> (4 * i) as u64) & 0xf) as u8
}

/// In how many of the lowest `n` byte positions `a` and `b` hold the same byte.
pub open spec fn same_bytes_below(a: u64, b: u64, n: nat) -> nat
    decreases n,
{
    if n == 0 {
        0
    } else {
        same_bytes_below(a, b, (n - 1) as nat) + if byte_at(a, (n - 1) as u64) == byte_at(
            b,
            (n - 1) as u64,
        ) {
            1nat
        } else {
            0nat
        }
    }
}

/// In how many of the lowest `n` nibble positions `a` and `b` hold the same
/// nibble.
pub open spec fn same_nibbles_below(a: u64, b: u64, n: nat) -> nat
    decreases n,
{
    if n == 0 {
        0
    } else {
        same_nibbles_below(a, b, (n - 1) as nat) + if nibble_at(a, (n - 1) as u64) == nibble_at(
            b,
            (n - 1) as u64,
        ) {
            1nat
        } else {
            0nat
        }
    }
}

/// In how many of the lowest `n` bit positions `a` and `b` differ.
pub open spec fn differing_bits_below(a: u64, b: u64, n: nat) -> nat
    decreases n,
{
    if n == 0 {
        0
    } else {
        differing_bits_below(a, b, (n - 1) as nat) + if bit_at(a, (n - 1) as u64) != bit_at(
            b,
            (n - 1) as u64,
        ) {
            1nat
        } else {
            0nat
        }
    }
}

/// The number of byte positions, out of 8, at which the two digests agree.
pub open spec fn same_byte_count(a: u64, b: u64) -> nat {
    same_bytes_below(a, b, 8)
}

/// The number of nibble positions, out of 16, at which the two digests agree.
pub open spec fn same_nibble_count(a: u64, b: u64) -> nat {
    same_nibbles_below(a, b, 16)
}

/// The Hamming distance: the number of bit positions, out of 64, at which the
/// two digests differ.
pub open spec fn bit_distance(a: u64, b: u64) -> nat {
    differing_bits_below(a, b, 64)
}

/// The Hamming distance between `a` and `b` rotated left by `rotate` places.
pub open spec fn rotated_bit_distance(a: u64, b: u64, rotate: u32) -> nat {
    bit_distance(a, rotated_left(b, rotate))
}

/// Agreeing positions never outnumber the positions looked at, and every
/// agreeing byte is two agreeing nibbles.
pub proof fn lemma_same_counts_below(a: u64, b: u64, n: nat)
    requires
        n <= 8,
    ensures
        same_bytes_below(a, b, n) <= n,
        same_nibbles_below(a, b, 2 * n) <= 2 * n,
        2 * same_bytes_below(a, b, n) <= same_nibbles_below(a, b, 2 * n),
    decreases n,
{
    if n > 0 {
        let i = (n - 1) as u64;
        lemma_same_counts_below(a, b, (n - 1) as nat);
        assert(same_nibbles_below(a, b, 2 * n) == same_nibbles_below(a, b, (2 * n - 1) as nat) + (
        if nibble_at(a, (2 * n - 1) as u64) == nibble_at(b, (2 * n - 1) as u64) {
            1nat
        } else {
            0nat
        }));
        assert(same_nibbles_below(a, b, (2 * n - 1) as nat) == same_nibbles_below(
            a,
            b,
            (2 * n - 2) as nat,
        ) + (if nibble_at(a, (2 * n - 2) as u64) == nibble_at(b, (2 * n - 2) as u64) {
            1nat
        } else {
            0nat
        }));
        lemma_byte_is_two_nibbles(a, b, i);
    }
}

/// Two digests agree in a byte exactly when they agree in both of its nibbles.
pub proof fn lemma_byte_is_two_nibbles(a: u64, b: u64, i: u64)
    requires
        i < 8,
    ensures
        byte_at(a, i) == byte_at(b, i) <==> nibble_at(a, (2 * i) as u64) == nibble_at(
            b,
            (2 * i) as u64,
        ) && nibble_at(a, (2 * i + 1) as u64) == nibble_at(b, (2 * i + 1) as u64),
{
    let lo = (2 * i) as u64;
    let hi = (2 * i + 1) as u64;
    assert((((a >> (8 * i) as u64) & 0xff) as u8 == ((b >> (8 * i) as u64) & 0xff) as u8) <==> (((a
        >> (4 * lo) as u64) & 0xf) as u8 == ((b >> (4 * lo) as u64) & 0xf) as u8 && ((a >> (4
        * hi) as u64) & 0xf) as u8 == ((b >> (4 * hi) as u64) & 0xf) as u8)) by (bit_vector)
        requires
            i < 8,
            lo == 2 * i,
            hi == 2 * i + 1,
    ;
}

/// The differing bits of two values are the set bits of their exclusive or.
pub proof fn lemma_differing_bits_are_ones_of_xor(a: u64, b: u64, n: nat)
    requires
        n <= 64,
    ensures
        differing_bits_below(a, b, n) == ones_below(a ^ b, n),
    decreases n,
{
    if n > 0 {
        let i = (n - 1) as u64;
        lemma_differing_bits_are_ones_of_xor(a, b, (n - 1) as nat);
        assert((((a ^ b) >> i) & 1 == 1) == (((a >> i) & 1 == 1) != ((b >> i) & 1 == 1)))
            by (bit_vector)
            requires
                i < 64,
        ;
    }
}

/// The three distances do not depend on the order of the two digests.
pub proof fn lemma_distances_are_symmetric(a: u64, b: u64, n: nat)
    ensures
        same_bytes_below(a, b, n) == same_bytes_below(b, a, n),
        same_nibbles_below(a, b, n) == same_nibbles_below(b, a, n),
        differing_bits_below(a, b, n) == differing_bits_below(b, a, n),
    decreases n,
{
    if n > 0 {
        lemma_distances_are_symmetric(a, b, (n - 1) as nat);
    }
}

/// A digest agrees with itself in every byte and nibble and differs from
/// itself in no bit.
pub proof fn lemma_distances_to_itself(a: u64, n: nat)
    ensures
        same_bytes_below(a, a, n) == n,
        same_nibbles_below(a, a, n) == n,
        differing_bits_below(a, a, n) == 0,
    decreases n,
{
    if n > 0 {
        lemma_distances_to_itself(a, (n - 1) as nat);
    }
}

/// Rotating by no places leaves the Hamming distance as it is.
pub proof fn lemma_rotation_by_zero(a: u64, b: u64)
    ensures
        rotated_bit_distance(a, b, 0) == bit_distance(a, b),
{
}

/// One bit for a position at which the two values differ, none for one at
/// which they agree.
pub open spec fn differs_at(a: u64, b: u64, i: u64) -> nat {
    if bit_at(a, i) != bit_at(b, i) {
        1
    } else {
        0
    }
}

/// Rotating both values by one place moves every differing position up by
/// one.
proof fn lemma_differing_bits_move_up(a: u64, b: u64, n: nat)
    requires
        n <= 63,
    ensures
        differing_bits_below(rotated_left(a, 1), rotated_left(b, 1), n + 1) == differs_at(
            rotated_left(a, 1),
            rotated_left(b, 1),
            0,
        ) + differing_bits_below(a, b, n),
    decreases n,
{
    let ra = rotated_left(a, 1);
    let rb = rotated_left(b, 1);
    if n > 0 {
        lemma_differing_bits_move_up(a, b, (n - 1) as nat);
        lemma_rotated_left_bit(a, 1, n as u64);
        lemma_rotated_left_bit(b, 1, n as u64);
        assert(differs_at(ra, rb, n as u64) == differs_at(a, b, (n - 1) as u64));
    } else {
        assert(differing_bits_below(ra, rb, 0) == 0);
        assert(differing_bits_below(ra, rb, 1) == differing_bits_below(ra, rb, 0) + differs_at(
            ra,
            rb,
            0,
        ));
    }
}

/// The Hamming distance does not change when both values are rotated by the
/// same number of places.
pub proof fn lemma_distance_survives_rotation(a: u64, b: u64, n: u32)
    requires
        n <= 64,
    ensures
        bit_distance(rotated_left(a, n), rotated_left(b, n)) == bit_distance(a, b),
    decreases n,
{
    if n > 0 {
        let before = (n - 1) as u32;
        let ra = rotated_left(a, before);
        let rb = rotated_left(b, before);
        lemma_distance_survives_rotation(a, b, before);
        lemma_rotated_left_once_more(a, before);
        lemma_rotated_left_once_more(b, before);
        lemma_differing_bits_move_up(ra, rb, 63);
        lemma_rotated_left_bit(ra, 1, 0);
        lemma_rotated_left_bit(rb, 1, 0);
    }
}

/// Rotating the second digest by `rotate` places, or the first by the places
/// that are left to a whole turn, gives the same distance.
pub proof fn lemma_rotated_distance_swapped(a: u64, b: u64, rotate: u32)
    requires
        rotate < 64,
    ensures
        rotated_bit_distance(b, a, ((64 - rotate) % 64) as u32) == rotated_bit_distance(
            a,
            b,
            rotate,
        ),
{
    let back = ((64 - rotate) % 64) as u32;
    lemma_distance_survives_rotation(b, rotated_left(a, back), rotate);
    lemma_rotated_left_and_back(a, rotate);
    lemma_distances_are_symmetric(rotated_left(b, rotate), a, 64);
}

/// Computes in how many of the 8 byte positions, and in how many of the 16
/// nibble positions, the two digests agree.
pub fn count_same_bytes_and_nibbles(a: u64, b: u64) -> (counts: (i32, i32))
    ensures
        counts.0 == same_byte_count(a, b),
        counts.1 == same_nibble_count(a, b),
        0 <= counts.0 <= 8,
        0 <= counts.1 <= 16,
        2 * counts.0 <= counts.1,
{
    let mut same_byte_count: i32 = 0;
    let mut same_nibble_count: i32 = 0;
    let mut byte: u32 = 0;
    while byte < 8
        invariant
            byte <= 8,
            same_byte_count == same_bytes_below(a, b, byte as nat),
            same_nibble_count == same_nibbles_below(a, b, 2 * byte as nat),
            same_byte_count <= byte,
            same_nibble_count <= 2 * byte,
        decreases 8 - byte,
    {
        let ba: u8 = #[verifier::truncate] ((a >> 8 * byte) as u8);
        let bb: u8 = #[verifier::truncate] ((b >> 8 * byte) as u8);
        proof {
            let i = byte as u64;
            let lo = (2 * i) as u64;
            let hi = (2 * i + 1) as u64;
            assert(ba == byte_at(a, i) && bb == byte_at(b, i) && (ba & 0x0F == bb & 0x0F
                <==> nibble_at(a, lo) == nibble_at(b, lo)) && (ba & 0xF0 == bb & 0xF0
                <==> nibble_at(a, hi) == nibble_at(b, hi))) by (bit_vector)
                requires
                    byte < 8,
                    i == byte,
                    lo == 2 * i,
                    hi == 2 * i + 1,
                    ba == (a >> 8 * byte) as u8,
                    bb == (b >> 8 * byte) as u8,
            ;
            assert(same_nibbles_below(a, b, (2 * byte + 2) as nat) == same_nibbles_below(
                a,
                b,
                (2 * byte + 1) as nat,
            ) + (if nibble_at(a, hi) == nibble_at(b, hi) {
                1nat
            } else {
                0nat
            }));
            assert(same_nibbles_below(a, b, (2 * byte + 1) as nat) == same_nibbles_below(
                a,
                b,
                (2 * byte) as nat,
            ) + (if nibble_at(a, lo) == nibble_at(b, lo) {
                1nat
            } else {
                0nat
            }));
        }
        if ba == bb {
            same_byte_count += 1;
        }
        if ba & 0xF0u8 == bb & 0xF0u8 {
            same_nibble_count += 1;
        }
        if ba & 0x0Fu8 == bb & 0x0Fu8 {
            same_nibble_count += 1;
        }
        byte += 1;
    }
    proof {
        lemma_same_counts_below(a, b, 8);
    }
    (same_byte_count, same_nibble_count)
}

/// Computes the Hamming distance between the two digests.
pub fn hamming_distance(a: u64, b: u64) -> (count: u32)
    ensures
        count == bit_distance(a, b),
        count <= 64,
{
    proof {
        lemma_differing_bits_are_ones_of_xor(a, b, 64);
        lemma_ones_below_bound(a ^ b, 64);
    }
    (a ^ b).count_ones()
}

/// Computes the Hamming distance between `a` and `b` rotated left by
/// `rotate` places.
pub fn rotated_hamming_distance(a: u64, b: u64, rotate: u32) -> (count: u32)
    ensures
        count == rotated_bit_distance(a, b, rotate),
        count <= 64,
{
    hamming_distance(a, b.rotate_left(rotate))
}

} // verus!
