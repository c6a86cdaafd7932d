use hash_quality::encoding::to_le_bytes;

#[test]
fn the_least_significant_byte_comes_first() {
    assert_eq!(
        to_le_bytes(0x0123_4567_89ab_cdef, 8),
        vec![0xef, 0xcd, 0xab, 0x89, 0x67, 0x45, 0x23, 0x01]
    );
    assert_eq!(to_le_bytes(1, 4), vec![1, 0, 0, 0]);
    assert_eq!(to_le_bytes(8, 4), vec![8, 0, 0, 0]);
    assert_eq!(to_le_bytes(0x1234, 4), 0x1234u32.to_le_bytes().to_vec());
}

#[test]
fn a_narrow_width_keeps_the_low_bytes() {
    assert_eq!(to_le_bytes(0x0123_4567_89ab_cdef, 4), vec![0xef, 0xcd, 0xab, 0x89]);
    assert_eq!(to_le_bytes(0x0123_4567_89ab_cdef, 1), vec![0xef]);
    assert_eq!(to_le_bytes(0x0123_4567_89ab_cdef, 0), Vec::<u8>::new());
}

#[test]
fn all_sixteen_bytes_of_a_wide_integer_are_written() {
    let value: u128 = 0x0f0e_0d0c_0b0a_0908_0706_0504_0302_0100;
    assert_eq!(to_le_bytes(value, 16), (0..16u8).collect::<Vec<u8>>());
    assert_eq!(to_le_bytes(1 << 127, 16), (1u128 << 127).to_le_bytes().to_vec());
    assert_eq!(to_le_bytes(u128::MAX, 16), vec![0xff; 16]);
}

#[test]
fn bytes_beyond_the_sixteenth_are_zero() {
    let mut expected: Vec<u8> = vec![0xff; 16];
    expected.extend_from_slice(&[0, 0, 0, 0]);
    assert_eq!(to_le_bytes(u128::MAX, 20), expected);
}

#[test]
fn a_single_bit_lands_in_one_byte() {
    for position in 0..128u32 {
        let bytes: Vec<u8> = to_le_bytes(1 << position, 16);
        for (index, byte) in bytes.iter().enumerate() {
            if index == (position / 8) as usize {
                assert_eq!(*byte, 1 << (position % 8));
            } else {
                assert_eq!(*byte, 0);
            }
        }
    }
}
