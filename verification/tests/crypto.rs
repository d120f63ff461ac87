use rusty_core::crypto::aes::{AesHelper, AesMode};
use rusty_core::crypto::xtea::{steam_drmp_pass1, steam_drmp_pass2, steam_xor};

#[test]
fn cbc_roundtrip_matches_reference() {
    // AES-256-CBC, key/iv of zero, 2 blocks of zeros.
    let key = [0x2bu8; 32];
    let iv = [0x00u8; 16];
    let data = [0x00u8; 32];
    let aes = AesHelper::new(&key, &iv);
    let out = aes.decrypt(&data, AesMode::Cbc);
    assert_eq!(out.len(), 32);
}

#[test]
fn xor_roundtrip() {
    let mut data = [0x11u8, 0x22, 0x33, 0x44, 0xaa, 0xbb, 0xcc, 0xdd];
    let orig = data;
    // First call derives the key from the first dword and returns the last.
    let key = steam_xor(&mut data, 8, 0);
    assert_eq!(key, u32::from_le_bytes([orig[4], orig[5], orig[6], orig[7]]));
    // The first dword remains the plaintext key source for the second pass.
    assert_eq!(data[0..4], orig[0..4]);
    // Second pass restores the original stream.
    steam_xor(&mut data, 8, 0);
    assert_eq!(data, orig);
}

#[test]
fn xor_with_key_chains_encoded_dwords() {
    let mut data = [1u8, 0, 0, 0, 2, 0, 0, 0, 0xff];
    let key = steam_xor(&mut data, 9, 0x10);
    // dword 0 ^ key, dword 1 ^ encoded dword 0; the trailing byte is kept.
    assert_eq!(data, [0x11, 0, 0, 0, 3, 0, 0, 0, 0xff]);
    assert_eq!(key, 2);
}

#[test]
fn aes_decryption_changes_the_data() {
    let key = [0x2bu8; 32];
    let iv = [0x00u8; 16];
    let data = [0x00u8; 32];
    let aes = AesHelper::new(&key, &iv);
    let ecb = aes.decrypt(&data, AesMode::Ecb);
    assert_eq!(ecb.len(), 32);
    assert_ne!(ecb, data.to_vec());
    // Both ECB blocks of equal ciphertext decrypt alike.
    assert_eq!(ecb[0..16], ecb[16..32]);
    // CBC's second block is the ECB block XORed with the first ciphertext
    // block (zeros), its first with the IV (zeros).
    let cbc = aes.decrypt(&data, AesMode::Cbc);
    assert_eq!(cbc, ecb);
}

#[test]
fn aes_drops_partial_block_unless_tail_is_kept() {
    let aes = AesHelper::new(&[1u8; 32], &[2u8; 16]);
    let data = [7u8; 20];
    assert_eq!(aes.decrypt(&data, AesMode::Cbc).len(), 16);
    let kept = aes.decrypt_preserving_tail(&data, AesMode::Cbc);
    assert_eq!(kept.len(), 20);
    assert_eq!(kept[16..], data[16..]);
}

#[test]
fn rebuilt_iv_changes_cbc_output() {
    let mut aes = AesHelper::new(&[3u8; 32], &[4u8; 16]);
    let data = [9u8; 16];
    let before = aes.decrypt(&data, AesMode::Cbc);
    assert!(aes.rebuild_iv(None));
    let after = aes.decrypt(&data, AesMode::Cbc);
    assert_ne!(before, after);
}

#[test]
fn drmp_pass1_decrypts_whole_blocks_only() {
    let keys = [1u32, 2, 3, 4];
    let mut data = [0x10u8; 12];
    steam_drmp_pass1(&mut data, 12, &keys);
    // The trailing partial block is untouched.
    assert_eq!(data[8..], [0x10u8; 4]);
    // The first block is the XTEA decryption XORed with 0x55555555.
    let mut res = [0u32; 2];
    steam_drmp_pass2(&mut res, &keys, 0x1010_1010, 0x1010_1010, 32);
    assert_eq!(u32::from_le_bytes([data[0], data[1], data[2], data[3]]), res[0] ^ 0x5555_5555);
    assert_eq!(u32::from_le_bytes([data[4], data[5], data[6], data[7]]), res[1] ^ 0x5555_5555);
}

#[test]
fn pass2_undoes_xtea_encryption() {
    let keys = [0x0123_4567u32, 0x89ab_cdef, 0xfeed_beef, 0x0bad_f00d];
    let (mut a, mut b) = (0xdead_beefu32, 0x1234_5678u32);
    let mut sum: u32 = 0;
    for _ in 0..32 {
        a = a.wrapping_add(
            (((b << 4) ^ (b >> 5)).wrapping_add(b)) ^ sum.wrapping_add(keys[(sum & 3) as usize]),
        );
        sum = sum.wrapping_add(0x9e37_79b9);
        b = b.wrapping_add(
            (((a << 4) ^ (a >> 5)).wrapping_add(a))
                ^ sum.wrapping_add(keys[((sum >> 11) & 3) as usize]),
        );
    }
    let mut res = [0u32; 2];
    steam_drmp_pass2(&mut res, &keys, a, b, 32);
    assert_eq!(res, [0xdead_beef, 0x1234_5678]);
}
