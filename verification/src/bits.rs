//! A 64-bit digest seen as a vector of bits, and the bit operations of the
//! standard library that the metrics are computed with.
use vstd::prelude::*;

verus! {

/// Whether bit `i` of `x` is set; bit 0 is the least significant one.
pub open spec fn bit_at(x: u64, i: u64) -> bool {
    (x >> i) & 1 == 1
}

/// How many of the lowest `n` bits of `x` are set.
pub open spec fn ones_below(x: u64, n: nat) -> nat
    decreases n,
{
    if n == 0 {
        0
    } else {
        ones_below(x, (n - 1) as nat) + if bit_at(x, (n - 1) as u64) {
            1nat
        } else {
            0nat
        }
    }
}

/// How many of the 64 bits of `x` are set.
pub open spec fn popcount(x: u64) -> nat {
    ones_below(x, 64)
}

/// `x` with its bits moved `n` places towards the most significant end, the
/// bits that leave at the top entering again at the bottom. Only `n` modulo
/// 64 matters.
pub open spec fn rotated_left(x: u64, n: u32) -> u64 {
    let by = (n % 64) as u64;
    if by == 0 {
        x
    } else {
        (x << by) | (x >> ((64 - by) as u64))
    }
}

/// Trusted: `u64::count_ones` returns the number of one bits in the binary
/// representation of its argument.
pub assume_specification[ u64::count_ones ](x: u64) -> (ones: u32)
    ensures
        ones == popcount(x),
;

/// Trusted: `u64::rotate_left` shifts the bits left by `n` places and puts
/// the bits that were shifted out back in at the low end. It accepts every
/// `n`.
pub assume_specification[ u64::rotate_left ](x: u64, n: u32) -> (rotated: u64)
    ensures
        rotated == rotated_left(x, n),
;

/// At most `n` of the lowest `n` bits are set.
pub proof fn lemma_ones_below_bound(x: u64, n: nat)
    ensures
        ones_below(x, n) <= n,
    decreases n,
{
    if n > 0 {
        lemma_ones_below_bound(x, (n - 1) as nat);
    }
}

/// Rotation moves bits and changes none: bit `i` of the rotated value is the
/// bit of `x` that sat `n` places lower, counted cyclically.
pub proof fn lemma_rotated_left_bit(x: u64, n: u32, i: u64)
    requires
        i < 64,
    ensures
        bit_at(rotated_left(x, n), i) == bit_at(x, ((i + 64 - (n % 64)) % 64) as u64),
{
    let by = (n % 64) as u64;
    let from = ((i + 64 - by) % 64) as u64;
    if by == 0 {
        assert(from == i);
    } else {
        let r = (x << by) | (x >> ((64 - by) as u64));
        assert(((r >> i) & 1 == 1) == ((x >> from) & 1 == 1)) by (bit_vector)
            requires
                0 < by < 64,
                i < 64,
                from == (i + 64 - by) % 64,
                r == (x << by) | (x >> ((64 - by) as u64)),
        ;
    }
}

/// Rotating by `n` places and then by one more is rotating by `n + 1` places.
pub proof fn lemma_rotated_left_once_more(x: u64, n: u32)
    requires
        n < 64,
    ensures
        rotated_left(rotated_left(x, n), 1) == rotated_left(x, (n + 1) as u32),
{
    let inner = rotated_left(x, n);
    if n == 0 {
    } else if n == 63 {
        assert((((x << 63) | (x >> 1)) << 1) | (((x << 63) | (x >> 1)) >> 63) == x)
            by (bit_vector);
    } else {
        let by = n as u64;
        assert((((x << by) | (x >> ((64 - by) as u64))) << 1) | (((x << by) | (x >> ((64
            - by) as u64))) >> 63) == (x << ((by + 1) as u64)) | (x >> ((63 - by) as u64)))
            by (bit_vector)
            requires
                0 < by < 63,
        ;
    }
}

/// Rotating by `n` places and then by `64 - n` places, a whole turn in all,
/// gives the value back.
pub proof fn lemma_rotated_left_and_back(x: u64, n: u32)
    requires
        n < 64,
    ensures
        rotated_left(rotated_left(x, ((64 - n) % 64) as u32), n) == x,
{
    if n != 0 {
        let by = n as u64;
        let back = (64 - by) as u64;
        assert((((x << back) | (x >> by)) << by) | (((x << back) | (x >> by)) >> back) == x)
            by (bit_vector)
            requires
                0 < by < 64,
                back == 64 - by,
        ;
    }
}

/// Rotating by nothing, or by a whole number of turns, changes nothing.
pub proof fn lemma_rotated_left_full_turn(x: u64, n: u32)
    requires
        n % 64 == 0,
    ensures
        rotated_left(x, n) == x,
{
}

} // verus!
