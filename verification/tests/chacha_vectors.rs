//! Keystream conformance: RFC 8439 vectors, the HChaCha vector, and
//! cross-checks of every cipher variant against the independent RustCrypto
//! implementation.

use chacha20::cipher::{KeyIvInit, StreamCipher, StreamCipherSeek};
use cipher_suite::chacha::{hchacha, ChaCha20LegacyCore, ChaChaCore, XChaChaCore};
use cipher_suite::serial::encrypt_serial_orig;

fn hex(s: &str) -> Vec<u8> {
    let clean: String = s.chars().filter(|c| !c.is_whitespace()).collect();
    clean
        .as_bytes()
        .chunks(2)
        .map(|p| u8::from_str_radix(std::str::from_utf8(p).unwrap(), 16).unwrap())
        .collect()
}

#[test]
fn zero_key_zero_nonce_first_block() {
    let key = vec![0u8; 32];
    let iv = vec![0u8; 12];
    let mut core = ChaChaCore::new(&key, &iv, 10);
    let mut block = vec![0u8; 64];
    core.apply_keystream_block(&mut block);
    assert_eq!(
        &block[..16],
        &hex("76 B8 E0 AD A0 F1 3D 90 40 5D 6A E5 53 86 BD 28")[..]
    );
    assert_eq!(core.get_block_pos(), 1);
}

#[test]
fn zero_key_zero_nonce_serial_reference() {
    let key = vec![0u8; 32];
    let iv = vec![0u8; 12];
    let mut data = vec![0u8; 64];
    encrypt_serial_orig(&mut data, &key, &iv);
    assert_eq!(
        &data[..16],
        &hex("76 B8 E0 AD A0 F1 3D 90 40 5D 6A E5 53 86 BD 28")[..]
    );
}

#[test]
fn rfc8439_block_function_vector() {
    // The block-function vector: key 00 01 .. 1f, nonce with the 09 word,
    // block counter 1.
    let key = hex(
        "000102030405060708090a0b0c0d0e0f101112131415161718191a1b1c1d1e1f",
    );
    let iv = hex("000000090000004a00000000");
    let mut core = ChaChaCore::new(&key, &iv, 10);
    core.set_block_pos(1);
    let mut block = vec![0u8; 64];
    core.apply_keystream_block(&mut block);
    assert_eq!(
        &block[..16],
        &hex("10 f1 e7 e4 d1 3b 59 15 50 0f dd 1f a3 20 71 c4")[..]
    );
    assert_eq!(core.get_block_pos(), 2);
}

#[test]
fn rfc8439_encryption_vector() {
    // The "Ladies and Gentlemen" vector: counter seeked to 1 before the
    // call; the ciphertext is the published one.
    let key = hex(
        "000102030405060708090a0b0c0d0e0f101112131415161718191a1b1c1d1e1f",
    );
    let iv = hex("000000000000004a00000000");
    let plaintext: &[u8] = b"Ladies and Gentlemen of the class of '99: \
If I could offer you only one tip for the future, sunscreen would be it.";
    let expected = hex(
        "6e 2e 35 9a 25 68 f9 80 41 ba 07 28 dd 0d 69 81 \
         e9 7e 7a ec 1d 43 60 c2 0a 27 af cc fd 9f ae 0b \
         f9 1b 65 c5 52 47 33 ab 8f 59 3d ab cd 62 b3 57 \
         16 39 d6 24 e6 51 52 ab 8f 53 0c 35 9f 08 61 d8 \
         07 ca 0d bf 50 0d 6a 61 56 a3 8e 08 8a 22 b6 5e \
         52 bc 51 4d 16 cc f8 06 81 8c e9 1a b7 79 37 36 \
         5a f9 0b bf 74 a3 5b e6 b4 0b 8e ed f2 78 5e 42 \
         87 4d",
    );
    let mut core = ChaChaCore::new(&key, &iv, 10);
    core.set_block_pos(1);
    let mut data = plaintext.to_vec();
    core.apply_keystream(&mut data);
    assert_eq!(data, expected);
}

#[test]
fn seek_round_trip_produces_same_block() {
    let key = hex(
        "000102030405060708090a0b0c0d0e0f101112131415161718191a1b1c1d1e1f",
    );
    let iv = hex("000000000000004a00000000");
    let mut core = ChaChaCore::new(&key, &iv, 10);
    let p: u32 = 1234;
    core.set_block_pos(p);
    let mut first = vec![0u8; 64];
    core.apply_keystream_block(&mut first);
    assert_eq!(core.get_block_pos(), p + 1);
    core.set_block_pos(p);
    let mut second = vec![0u8; 64];
    core.apply_keystream_block(&mut second);
    assert_eq!(core.get_block_pos(), p + 1);
    assert_eq!(first, second);
}

#[test]
fn remaining_blocks_counts_down_from_the_counter() {
    let key = vec![7u8; 32];
    let iv = vec![9u8; 12];
    let mut core = ChaChaCore::new(&key, &iv, 10);
    assert_eq!(core.remaining_blocks(), Some(u32::MAX as usize));
    core.set_block_pos(u32::MAX - 5);
    assert_eq!(core.remaining_blocks(), Some(5));
}

#[test]
fn core_matches_rustcrypto_across_chunks() {
    let key = hex(
        "1c9240a5eb55d38af333888604f6b5f0473917c1402b80099dca5cbc207075c0",
    );
    let iv = hex("000000000000004a00000002");
    let mut ours = ChaChaCore::new(&key, &iv, 10);
    let mut theirs = chacha20::ChaCha20::new(key[..].into(), iv[..].into());
    let mut a = vec![0x5au8; 1000];
    let mut b = a.clone();
    ours.apply_keystream(&mut a);
    theirs.apply_keystream(&mut b);
    assert_eq!(a, b);
}

#[test]
fn seek_matches_rustcrypto() {
    let key = vec![0x42u8; 32];
    let iv = vec![0x24u8; 12];
    let mut ours = ChaChaCore::new(&key, &iv, 10);
    ours.set_block_pos(7);
    let mut theirs = chacha20::ChaCha20::new(key[..].into(), iv[..].into());
    theirs.seek(7u64 * 64);
    let mut a = vec![0u8; 256];
    let mut b = vec![0u8; 256];
    ours.apply_keystream(&mut a);
    theirs.apply_keystream(&mut b);
    assert_eq!(a, b);
}

#[test]
fn hchacha_vector() {
    let key = hex(
        "000102030405060708090a0b0c0d0e0f101112131415161718191a1b1c1d1e1f",
    );
    let input = hex("000000090000004a0000000031415927");
    let subkey = hchacha(&key, &input, 10);
    assert_eq!(
        subkey,
        hex(
            "82413b4227b27bfed30e42508a877d73a0f9e4d58a74a853c12ec41326d3ecdc"
        )
    );
}

#[test]
fn xchacha_matches_rustcrypto() {
    let key = hex(
        "808182838485868788898a8b8c8d8e8f909192939495969798999a9b9c9d9e9f",
    );
    let iv = hex("404142434445464748494a4b4c4d4e4f5051525354555657");
    let mut ours = XChaChaCore::new(&key, &iv, 10);
    let mut theirs = chacha20::XChaCha20::new(key[..].into(), iv[..].into());
    let mut a = vec![0u8; 304];
    let mut b = vec![0u8; 304];
    ours.apply_keystream(&mut a);
    theirs.apply_keystream(&mut b);
    assert_eq!(a, b);
}

#[test]
fn legacy_matches_rustcrypto() {
    let key = hex(
        "000102030405060708090a0b0c0d0e0f101112131415161718191a1b1c1d1e1f",
    );
    let iv = hex("0001020304050607");
    let mut ours = ChaCha20LegacyCore::new(&key, &iv);
    let mut theirs = chacha20::ChaCha20Legacy::new(key[..].into(), iv[..].into());
    let mut a = vec![0u8; 128];
    let mut b = vec![0u8; 128];
    ours.apply_keystream(&mut a);
    theirs.apply_keystream(&mut b);
    assert_eq!(a, b);
}

#[test]
fn reduced_round_variants_match_rustcrypto() {
    let key = vec![0x13u8; 32];
    let iv = vec![0x77u8; 12];
    // ChaCha8 runs 4 full rounds, ChaCha12 runs 6.
    let mut ours8 = ChaChaCore::new(&key, &iv, 4);
    let mut theirs8 = chacha20::ChaCha8::new(key[..].into(), iv[..].into());
    let mut a = vec![0u8; 200];
    let mut b = vec![0u8; 200];
    ours8.apply_keystream(&mut a);
    theirs8.apply_keystream(&mut b);
    assert_eq!(a, b);
    let mut ours12 = ChaChaCore::new(&key, &iv, 6);
    let mut theirs12 = chacha20::ChaCha12::new(key[..].into(), iv[..].into());
    let mut c = vec![0u8; 200];
    let mut d = vec![0u8; 200];
    ours12.apply_keystream(&mut c);
    theirs12.apply_keystream(&mut d);
    assert_eq!(c, d);
}

#[test]
fn quarter_round_and_run_rounds_shape() {
    // One quarter round of the all-zero state with one bit set keeps the
    // untouched columns at zero.
    let mut state: Vec<u32> = vec![0; 16];
    state[0] = 0x11111111;
    cipher_suite::chacha::quarter_round(0, 4, 8, 12, &mut state);
    assert_ne!(state[12], 0);
    assert_eq!(state[1], 0);
    // run_rounds of the zero-key state gives the known first block.
    let key = vec![0u8; 32];
    let iv = vec![0u8; 12];
    let core = ChaChaCore::new(&key, &iv, 10);
    let words = cipher_suite::chacha::run_rounds(&core.state, 10);
    assert_eq!(words[0].to_le_bytes(), [0x76, 0xb8, 0xe0, 0xad]);
}
