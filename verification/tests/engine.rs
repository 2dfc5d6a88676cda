//! The cluster engine against the serial reference: parallel equivalence,
//! tail handling, involutivity, location equivalence and the staging-ring
//! rotation.

use cipher_suite::buf::{BufAlloc, DmaBuf};
use cipher_suite::cluster::{Cluster, Device};
use cipher_suite::serial::encrypt_serial_orig;
use cipher_suite::wrapper::{PulpWrapper, SourceLocation};
use cipher_suite::{encrypt, parse_cores_u8, Cipher};

/// A simple deterministic byte generator for test data.
fn pattern(len: usize, seed: u32) -> Vec<u8> {
    let mut state = seed;
    (0..len)
        .map(|_| {
            state = state.wrapping_mul(1664525).wrapping_add(1013904223);
            (state >> 24) as u8
        })
        .collect()
}

fn cluster_run(data: &mut Vec<u8>, key: &Vec<u8>, iv: &Vec<u8>, cores: usize, buf_len: usize, ram: bool) {
    let cluster = Cluster::new().unwrap();
    let mut wrapper = PulpWrapper::new(cluster, cores, buf_len);
    let loc = if ram {
        SourceLocation::Ram(Device {})
    } else {
        SourceLocation::L2
    };
    wrapper.run(data, key, iv, loc);
}

#[test]
fn parallel_matches_serial_exact_rounds() {
    // len = 15360: exactly 5 rounds of B = 3072, with 8 cores.
    let key = pattern(32, 0xC0FFEE);
    let iv = pattern(12, 0xBEEF);
    let plain = pattern(15360, 42);
    let mut serial = plain.clone();
    encrypt_serial_orig(&mut serial, &key, &iv);
    let mut parallel = plain.clone();
    cluster_run(&mut parallel, &key, &iv, 8, 3072, false);
    assert_eq!(parallel, serial);
}

#[test]
fn parallel_matches_serial_with_tail() {
    // len = 15377: 5 rounds of B = 3072 plus a 17-byte tail.
    let key = pattern(32, 0xC0FFEE);
    let iv = pattern(12, 0xBEEF);
    let plain = pattern(15377, 43);
    let mut serial = plain.clone();
    encrypt_serial_orig(&mut serial, &key, &iv);
    let mut parallel = plain.clone();
    cluster_run(&mut parallel, &key, &iv, 8, 3072, false);
    assert_eq!(parallel, serial);
}

#[test]
fn parallel_matches_serial_for_every_core_count() {
    let key = pattern(32, 7);
    let iv = pattern(12, 8);
    let plain = pattern(64 * 8 * 3, 9);
    let mut serial = plain.clone();
    encrypt_serial_orig(&mut serial, &key, &iv);
    for cores in [1usize, 2, 4, 8] {
        let mut parallel = plain.clone();
        cluster_run(&mut parallel, &key, &iv, cores, 64 * 8, false);
        assert_eq!(parallel, serial, "core count {}", cores);
    }
}

#[test]
fn encrypt_twice_restores_plaintext() {
    let key = pattern(32, 1);
    let iv = pattern(12, 2);
    let plain = pattern(5000, 3);
    let mut data = plain.clone();
    cluster_run(&mut data, &key, &iv, 4, 1024, false);
    assert_ne!(data, plain);
    cluster_run(&mut data, &key, &iv, 4, 1024, false);
    assert_eq!(data, plain);
}

#[test]
fn ram_source_matches_l2_source() {
    let key = pattern(32, 11);
    let iv = pattern(12, 12);
    let plain = pattern(8192, 13);
    let mut from_l2 = plain.clone();
    cluster_run(&mut from_l2, &key, &iv, 8, 2048, false);
    let mut from_ram = plain.clone();
    cluster_run(&mut from_ram, &key, &iv, 8, 2048, true);
    assert_eq!(from_ram, from_l2);
}

#[test]
fn engine_handles_short_and_empty_sources() {
    let key = pattern(32, 21);
    let iv = pattern(12, 22);
    for len in [0usize, 1, 63, 64, 65, 511, 512, 513, 1024, 1025] {
        let plain = pattern(len, len as u32);
        let mut serial = plain.clone();
        encrypt_serial_orig(&mut serial, &key, &iv);
        let mut parallel = plain.clone();
        cluster_run(&mut parallel, &key, &iv, 2, 512, false);
        assert_eq!(parallel, serial, "len {}", len);
    }
}

#[test]
fn encrypt_entry_point_dispatches_chacha20() {
    let key = pattern(32, 31);
    let iv = pattern(12, 32);
    let plain = pattern(300, 33);
    let mut serial = plain.clone();
    encrypt_serial_orig(&mut serial, &key, &iv);

    let cluster = Cluster::new().unwrap();
    let mut wrapper = PulpWrapper::new(cluster, 1, 64);
    let mut data = plain.clone();
    encrypt(&mut data, &key, &iv, &mut wrapper, None, Cipher::ChaCha20);
    assert_eq!(data, serial);

    let mut data2 = plain.clone();
    encrypt(
        &mut data2,
        &key,
        &iv,
        &mut wrapper,
        Some(Device {}),
        Cipher::ChaCha20,
    );
    assert_eq!(data2, serial);
}

#[test]
fn ring_counters_rotate_over_zero_b_2b() {
    let b = 512usize;
    let source = pattern(4 * b, 5);
    let cluster = Cluster::new().unwrap();
    let mut c = cluster;
    let alloc = BufAlloc::new(&mut c, b);
    let mut buf = DmaBuf::new_from_l2(source, alloc, b, 2);
    assert_eq!(buf.counters, [0, b, 2 * b]);
    for round in 1..5usize {
        buf.advance();
        let mut sorted = buf.counters;
        sorted.sort();
        assert_eq!(sorted, [0, b, 2 * b]);
        assert_eq!(buf.rounds, round);
    }
    buf.flush();
}

#[test]
fn work_buffer_shards_clip_at_the_tail() {
    let b = 256usize;
    // 100 bytes: the work buffer holds a short slab, so later cores get
    // short or empty shards (shard size is 128 with 2 cores).
    let source = pattern(100, 6);
    let cluster = Cluster::new().unwrap();
    let mut c = cluster;
    let alloc = BufAlloc::new(&mut c, b);
    let buf = DmaBuf::new_from_l2(source.clone(), alloc, b, 2);
    let shard0 = buf.get_work_buf(0);
    let shard1 = buf.get_work_buf(1);
    assert_eq!(shard0, source[..100].to_vec());
    assert_eq!(shard1, Vec::<u8>::new());
}

#[test]
fn parse_cores_accepts_power_of_two_digits() {
    assert_eq!(parse_cores_u8("8"), 8);
    assert_eq!(parse_cores_u8("1"), 1);
    assert_eq!(parse_cores_u8("2"), 2);
    assert_eq!(parse_cores_u8("4"), 4);
}
