use hash_quality::diffusion::{
    assert_pairwise_different, assert_sufficiently_different, Defect, DiffusionFailure,
};

fn failure(left: u64, right: u64, defect: Defect) -> Result<(), DiffusionFailure> {
    Err(DiffusionFailure { left, right, defect })
}

#[test]
fn unrelated_digests_pass() {
    let a: u64 = 0xc5c_7fd0_a6a3_a450;
    let b: u64 = 0xd23f_0824_128b_2f33;
    assert_eq!(assert_sufficiently_different(a, b, 2), Ok(()));
    assert_eq!(assert_sufficiently_different(a, b, 1), Ok(()));
    assert_eq!(assert_sufficiently_different(a, b, 0), Ok(()));
    assert_eq!(assert_sufficiently_different(b, a, 1), Ok(()));
}

#[test]
fn a_negative_tolerance_rejects_every_pair() {
    let a: u64 = 0xc5c_7fd0_a6a3_a450;
    let b: u64 = 0xd23f_0824_128b_2f33;
    assert_eq!(
        assert_sufficiently_different(a, b, -1),
        failure(a, b, Defect::SameBytes { count: 0 })
    );
    assert_eq!(
        assert_sufficiently_different(a, b, i32::MIN),
        failure(a, b, Defect::SameBytes { count: 0 })
    );
}

#[test]
fn equal_digests_fail_on_their_bytes() {
    let a: u64 = 0x0123_4567_89ab_cdef;
    for tolerance in [0, 1, 2, 7] {
        assert_eq!(
            assert_sufficiently_different(a, a, tolerance),
            failure(a, a, Defect::SameBytes { count: 8 })
        );
    }
}

#[test]
fn equal_digests_fail_on_their_bits_when_the_tolerance_lets_bytes_and_nibbles_through() {
    let a: u64 = 0x0123_4567_89ab_cdef;
    for tolerance in [8, 9, 1000, i32::MAX] {
        assert_eq!(
            assert_sufficiently_different(a, a, tolerance),
            failure(a, a, Defect::FlippedBits { count: 0 })
        );
    }
}

#[test]
fn complements_fail_on_their_bits() {
    let a: u64 = 0x0123_4567_89ab_cdef;
    assert_eq!(
        assert_sufficiently_different(a, !a, 1),
        failure(a, !a, Defect::FlippedBits { count: 64 })
    );
}

#[test]
fn bytes_are_judged_before_nibbles_and_nibbles_before_bits() {
    let a: u64 = 0xf9eb_dacc_0cb1_e29c;
    let b: u64 = 0xf9ec_d7b0_38b1_d190;
    assert_eq!(
        assert_sufficiently_different(a, b, 1),
        failure(a, b, Defect::SameBytes { count: 2 })
    );
    assert_eq!(
        assert_sufficiently_different(a, b, 2),
        failure(a, b, Defect::SameNibbles { count: 7 })
    );
    assert_eq!(assert_sufficiently_different(a, b, 3), Ok(()));
}

#[test]
fn nibbles_may_agree_three_times_the_tolerance() {
    let a: u64 = 0xf28c_105d_1fb1_7c23;
    let b: u64 = 0xa270_b358_3f26_3029;
    assert_eq!(
        assert_sufficiently_different(a, b, 1),
        failure(a, b, Defect::SameNibbles { count: 4 })
    );
    assert_eq!(assert_sufficiently_different(a, b, 2), Ok(()));
    let c: u64 = 0x24ed_e6a4_6b4c_b242;
    let d: u64 = 0x2ee7_a6a4_8a6a_624c;
    assert_eq!(
        assert_sufficiently_different(c, d, 2),
        failure(c, d, Defect::SameNibbles { count: 7 })
    );
    assert_eq!(assert_sufficiently_different(c, d, 3), Ok(()));
}

#[test]
fn bytes_may_agree_up_to_the_tolerance() {
    let a: u64 = 0xa38f_d547_923a_7369;
    let b: u64 = 0x5f55_d547_3018_73c5;
    assert_eq!(
        assert_sufficiently_different(a, b, 2),
        failure(a, b, Defect::SameBytes { count: 3 })
    );
    assert_eq!(assert_sufficiently_different(a, b, 3), Ok(()));
}

#[test]
fn thirteen_to_fifty_one_bits_must_differ() {
    let a: u64 = 0x907a_70c3_1012_f037;
    let b: u64 = 0x9038_7867_b802_d0b7;
    assert_eq!(
        assert_sufficiently_different(a, b, 2),
        failure(a, b, Defect::FlippedBits { count: 12 })
    );
    assert_eq!(assert_sufficiently_different(0x9c65_3938_2b05_37e6, 0xdc27_b938_a901_d6ce, 2), Ok(()));
    assert_eq!(assert_sufficiently_different(0x72fd_f202_2a96_fb1a, 0x8702_4d3b_c569_a4a9, 2), Ok(()));
    let c: u64 = 0x4cbd_87ad_5c90_a958;
    let d: u64 = 0xb3c2_5072_a9ec_76ef;
    assert_eq!(
        assert_sufficiently_different(c, d, 2),
        failure(c, d, Defect::FlippedBits { count: 52 })
    );
}

#[test]
fn a_rotation_of_the_other_digest_is_found() {
    let a: u64 = 0x0123_4567_89ab_cdef;
    let b: u64 = 0xef01_2345_6789_abcd;
    assert_eq!(
        assert_sufficiently_different(a, b, 1),
        failure(a, b, Defect::RotatedFlippedBits { rotate: 8, count: 0 })
    );
    assert_eq!(
        assert_sufficiently_different(b, a, 1),
        failure(b, a, Defect::RotatedFlippedBits { rotate: 56, count: 0 })
    );
    let c: u64 = 0x1600_a35a_0999_50d8;
    let d: u64 = 0x2c01_46b4_1332_a1b0;
    assert_eq!(
        assert_sufficiently_different(c, d, 1),
        failure(c, d, Defect::RotatedFlippedBits { rotate: 63, count: 0 })
    );
}

#[test]
fn a_rotation_of_the_complement_is_found() {
    let a: u64 = 0x6b0d_549b_6f03_675a;
    let b: u64 = 0x52ca_7955_b248_7e4c;
    assert_eq!(
        assert_sufficiently_different(a, b, 2),
        failure(a, b, Defect::RotatedFlippedBits { rotate: 9, count: 64 })
    );
    assert_eq!(
        assert_sufficiently_different(b, a, 2),
        failure(b, a, Defect::RotatedFlippedBits { rotate: 55, count: 64 })
    );
}

#[test]
fn eleven_to_fifty_three_bits_must_differ_after_a_rotation() {
    let a: u64 = 0xdda1_494c_73cf_256d;
    let b: u64 = 0xd23c_f3d6_df5e_9496;
    assert_eq!(
        assert_sufficiently_different(a, b, 2),
        failure(a, b, Defect::RotatedFlippedBits { rotate: 36, count: 10 })
    );
    assert_eq!(
        assert_sufficiently_different(b, a, 2),
        failure(b, a, Defect::RotatedFlippedBits { rotate: 28, count: 10 })
    );
    assert_eq!(assert_sufficiently_different(0x9d2c_67ed_a13f_fe79, 0x8edd_3636_ff83_b3a4, 2), Ok(()));
    assert_eq!(assert_sufficiently_different(0xf3e_bdd3_102b_938b, 0xde3c_6849_9bd8_9d8e, 2), Ok(()));
    let c: u64 = 0xfb71_0734_986e_86cb;
    let d: u64 = 0xe45f_4d55_ab9e_9259;
    assert_eq!(
        assert_sufficiently_different(c, d, 2),
        failure(c, d, Defect::RotatedFlippedBits { rotate: 26, count: 54 })
    );
}

#[test]
fn no_two_or_fewer_digests_fail_pairwise() {
    assert_eq!(assert_pairwise_different(&[], 1), Ok(()));
    assert_eq!(assert_pairwise_different(&[7], 1), Ok(()));
    assert_eq!(assert_pairwise_different(&[7], -5), Ok(()));
}

#[test]
fn three_unrelated_digests_pass_pairwise() {
    let digests: [u64; 3] = [0xc5c_7fd0_a6a3_a450, 0xd23f_0824_128b_2f33, 0x30d0_b194_8245_0164];
    assert_eq!(assert_pairwise_different(&digests, 1), Ok(()));
}

#[test]
fn the_last_pair_is_judged_too() {
    let x: u64 = 0xc5c_7fd0_a6a3_a450;
    let y: u64 = 0xd23f_0824_128b_2f33;
    let z: u64 = 0x33d2_3f08_2412_8b2f;
    assert_eq!(
        assert_pairwise_different(&[x, y, z], 1),
        failure(y, z, Defect::RotatedFlippedBits { rotate: 8, count: 0 })
    );
}

#[test]
fn pairs_are_judged_in_the_order_of_their_first_digest() {
    let x: u64 = 0xc5c_7fd0_a6a3_a450;
    let y: u64 = 0xd23f_0824_128b_2f33;
    assert_eq!(
        assert_pairwise_different(&[x, y, y, x], 1),
        failure(x, x, Defect::SameBytes { count: 8 })
    );
    assert_eq!(
        assert_pairwise_different(&[x, y, x, y], 1),
        failure(x, x, Defect::SameBytes { count: 8 })
    );
    assert_eq!(
        assert_pairwise_different(&[y, x, x, y], 1),
        failure(y, y, Defect::SameBytes { count: 8 })
    );
}
