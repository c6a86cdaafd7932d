//! How the integers that the harness hashes are written down as bytes.
use vstd::prelude::*;

verus! {

/// Byte `index` of the little-endian form of `value`: the byte that holds
/// bits `8 * index` to `8 * index + 7`, and 0 beyond the sixteenth byte.
pub open spec fn le_byte(value: u128, index: nat) -> u8 {
    if index < 16 {
        ((value >> ((8 * index) as u128)) & 0xff) as u8
    } else {
        0
    }
}

/// The first `width` bytes of the little-endian form of `value`, the least
/// significant byte first.
pub open spec fn le_bytes(value: u128, width: nat) -> Seq<u8> {
    Seq::new(width, |index: int| le_byte(value, index as nat))
}

/// Writes `value` down as `width` bytes, the least significant byte first.
pub fn to_le_bytes(value: u128, width: usize) -> (bytes: Vec<u8>)
    ensures
        bytes@ == le_bytes(value, width as nat),
{
    let mut bytes: Vec<u8> = Vec::new();
    let mut index: usize = 0;
    while index < width
        invariant
            index <= width,
            bytes@ == le_bytes(value, index as nat),
        decreases width - index,
    {
        let byte: u8 = if index < 16 {
            let shift: u32 = (8 * index) as u32;
            let low: u128 = (value >> shift) & 0xff;
            assert(low <= 0xff) by (bit_vector)
                requires
                    low == (value >> shift) & 0xff,
            ;
            assert((value >> shift) == (value >> ((8 * index as nat) as u128))) by (bit_vector)
                requires
                    shift == 8 * index,
                    index < 16,
            ;
            low as u8
        } else {
            0
        };
        bytes.push(byte);
        assert(bytes@ =~= le_bytes(value, (index + 1) as nat));
        index += 1;
    }
    bytes
}

} // verus!
