use hash_quality::accumulator::Accumulator;
use hash_quality::bit_flip::test_single_bit_flip;
use hash_quality::determinism::test_finish_is_consistant;
use hash_quality::diffusion::assert_sufficiently_different;
use hash_quality::distribution::test_bucket_distributin;
use hash_quality::encoding::to_le_bytes;
use hash_quality::key_sensitivity::{test_keys_change_output, test_single_key_bit_flip};
use hash_quality::padding::test_padding_doesnot_collide;

const BAD_KEY: u64 = 0x5252_5252_5252_5252; // Every byte of it is substituted by 0.

const SBOX: [u8; 256] = [
    0x63, 0x7c, 0x77, 0x7b, 0xf2, 0x6b, 0x6f, 0xc5, 0x30, 0x01, 0x67, 0x2b, 0xfe, 0xd7, 0xab, 0x76,
    0xca, 0x82, 0xc9, 0x7d, 0xfa, 0x59, 0x47, 0xf0, 0xad, 0xd4, 0xa2, 0xaf, 0x9c, 0xa4, 0x72, 0xc0,
    0xb7, 0xfd, 0x93, 0x26, 0x36, 0x3f, 0xf7, 0xcc, 0x34, 0xa5, 0xe5, 0xf1, 0x71, 0xd8, 0x31, 0x15,
    0x04, 0xc7, 0x23, 0xc3, 0x18, 0x96, 0x05, 0x9a, 0x07, 0x12, 0x80, 0xe2, 0xeb, 0x27, 0xb2, 0x75,
    0x09, 0x83, 0x2c, 0x1a, 0x1b, 0x6e, 0x5a, 0xa0, 0x52, 0x3b, 0xd6, 0xb3, 0x29, 0xe3, 0x2f, 0x84,
    0x53, 0xd1, 0x00, 0xed, 0x20, 0xfc, 0xb1, 0x5b, 0x6a, 0xcb, 0xbe, 0x39, 0x4a, 0x4c, 0x58, 0xcf,
    0xd0, 0xef, 0xaa, 0xfb, 0x43, 0x4d, 0x33, 0x85, 0x45, 0xf9, 0x02, 0x7f, 0x50, 0x3c, 0x9f, 0xa8,
    0x51, 0xa3, 0x40, 0x8f, 0x92, 0x9d, 0x38, 0xf5, 0xbc, 0xb6, 0xda, 0x21, 0x10, 0xff, 0xf3, 0xd2,
    0xcd, 0x0c, 0x13, 0xec, 0x5f, 0x97, 0x44, 0x17, 0xc4, 0xa7, 0x7e, 0x3d, 0x64, 0x5d, 0x19, 0x73,
    0x60, 0x81, 0x4f, 0xdc, 0x22, 0x2a, 0x90, 0x88, 0x46, 0xee, 0xb8, 0x14, 0xde, 0x5e, 0x0b, 0xdb,
    0xe0, 0x32, 0x3a, 0x0a, 0x49, 0x06, 0x24, 0x5c, 0xc2, 0xd3, 0xac, 0x62, 0x91, 0x95, 0xe4, 0x79,
    0xe7, 0xc8, 0x37, 0x6d, 0x8d, 0xd5, 0x4e, 0xa9, 0x6c, 0x56, 0xf4, 0xea, 0x65, 0x7a, 0xae, 0x08,
    0xba, 0x78, 0x25, 0x2e, 0x1c, 0xa6, 0xb4, 0xc6, 0xe8, 0xdd, 0x74, 0x1f, 0x4b, 0xbd, 0x8b, 0x8a,
    0x70, 0x3e, 0xb5, 0x66, 0x48, 0x03, 0xf6, 0x0e, 0x61, 0x35, 0x57, 0xb9, 0x86, 0xc1, 0x1d, 0x9e,
    0xe1, 0xf8, 0x98, 0x11, 0x69, 0xd9, 0x8e, 0x94, 0x9b, 0x1e, 0x87, 0xe9, 0xce, 0x55, 0x28, 0xdf,
    0x8c, 0xa1, 0x89, 0x0d, 0xbf, 0xe6, 0x42, 0x68, 0x41, 0x99, 0x2d, 0x0f, 0xb0, 0x54, 0xbb, 0x16,
];

const WHITENING: [u8; 32] = [
    0xcb, 0x29, 0x3e, 0x67, 0x70, 0xeb, 0x3a, 0x95, 0xda, 0x21, 0x1e, 0x6a, 0x66, 0x3b, 0xd3, 0x73,
    0x11, 0xaa, 0xbe, 0xcb, 0x86, 0xbe, 0xda, 0x3f, 0xf6, 0xd0, 0xc2, 0x33, 0xa1, 0xc4, 0xcb, 0x77,
];

fn xtime(x: u8) -> u8 {
    let doubled: u8 = x << 1;
    if x & 0x80 != 0 {
        doubled ^ 0x1b
    } else {
        doubled
    }
}

/// One round of AES encryption: substitute, shift rows, mix columns, add key.
fn aesenc(state: [u8; 16], round_key: [u8; 16]) -> [u8; 16] {
    let mut t = [0u8; 16];
    for c in 0..4 {
        for r in 0..4 {
            t[4 * c + r] = SBOX[state[4 * ((c + r) & 3) + r] as usize];
        }
    }
    let mut out = [0u8; 16];
    for c in 0..4 {
        let (a0, a1, a2, a3) = (t[4 * c], t[4 * c + 1], t[4 * c + 2], t[4 * c + 3]);
        out[4 * c] = xtime(a0) ^ xtime(a1) ^ a1 ^ a2 ^ a3 ^ round_key[4 * c];
        out[4 * c + 1] = a0 ^ xtime(a1) ^ xtime(a2) ^ a2 ^ a3 ^ round_key[4 * c + 1];
        out[4 * c + 2] = a0 ^ a1 ^ xtime(a2) ^ xtime(a3) ^ a3 ^ round_key[4 * c + 2];
        out[4 * c + 3] = xtime(a0) ^ a0 ^ a1 ^ a2 ^ xtime(a3) ^ round_key[4 * c + 3];
    }
    out
}

/// A hash function built on the AES round function, computed in software.
struct AHasher {
    enc: [u8; 16],
    sum: [u8; 16],
    key: [u8; 16],
}

impl AHasher {
    fn new_with_keys(key0: u64, key1: u64) -> AHasher {
        let mut key = [0u8; 16];
        key[..8].copy_from_slice(&key0.to_le_bytes());
        key[8..].copy_from_slice(&key1.to_le_bytes());
        let mut enc = [0u8; 16];
        let mut sum = [0u8; 16];
        for i in 0..16 {
            enc[i] = key[i] ^ WHITENING[i];
            sum[i] = key[15 - i] ^ WHITENING[16 + i];
        }
        enc = aesenc(enc, sum);
        sum = aesenc(sum, key);
        enc = aesenc(enc, sum);
        AHasher { enc, sum, key }
    }

    fn block(&mut self, block: [u8; 16]) {
        for i in 0..16 {
            self.enc[i] ^= block[i];
        }
        self.enc = aesenc(self.enc, self.key);
        for i in 0..16 {
            self.sum[i] = self.sum[i].wrapping_add(self.enc[(i * 5 + 3) & 15] ^ block[i]);
        }
    }
}

impl Accumulator for AHasher {
    fn ingest(mut self, bytes: &[u8]) -> AHasher {
        let mut length = [0u8; 16];
        length[..8].copy_from_slice(&(bytes.len() as u64).to_le_bytes());
        self.block(length);
        for chunk in bytes.chunks(16) {
            let mut block = [0u8; 16];
            block[..chunk.len()].copy_from_slice(chunk);
            self.block(block);
        }
        self
    }

    fn finalize(&self) -> u64 {
        let mut t = aesenc(self.enc, self.sum);
        t = aesenc(t, self.key);
        t = aesenc(t, self.sum);
        let mut low = [0u8; 8];
        low.copy_from_slice(&t[..8]);
        u64::from_le_bytes(low)
    }
}

#[test]
fn test_single_bit_in_byte() {
    let hasher1 = AHasher::new_with_keys(64, 64).ingest(&to_le_bytes(8, 4));
    let hasher2 = AHasher::new_with_keys(64, 64).ingest(&to_le_bytes(0, 4));
    assert_eq!(assert_sufficiently_different(hasher1.finalize(), hasher2.finalize(), 1), Ok(()));
}

#[test]
fn aes_single_bit_flip() {
    assert_eq!(test_single_bit_flip(|| AHasher::new_with_keys(BAD_KEY, BAD_KEY)), Ok(()));
}

#[test]
fn aes_single_key_bit_flip() {
    assert_eq!(test_single_key_bit_flip(|k1, k2| AHasher::new_with_keys(k1, k2)), Ok(()));
}

#[test]
fn aes_keys_change_output() {
    assert_eq!(test_keys_change_output(AHasher::new_with_keys), Ok(()));
}

#[test]
fn aes_finish_is_consistant() {
    assert_eq!(test_finish_is_consistant(AHasher::new_with_keys), Ok(()));
}

#[test]
fn aes_padding_doesnot_collide() {
    assert_eq!(test_padding_doesnot_collide(|| AHasher::new_with_keys(BAD_KEY, BAD_KEY)), Ok(()));
}

#[test]
fn hash_quality_test_fallback_bucket_distributin() {
    assert_eq!(test_bucket_distributin(|| AHasher::new_with_keys(0, 0)), Ok(()));
}
