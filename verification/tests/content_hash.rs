use alice_energy::content_hash::{encode_words_le, hash_words, push_le_u64};
use alice_energy::dispatch::dispatch_result_hash;
use alice_energy::fnv1a;
use alice_energy::load_flow::{ac_result_hash, dc_result_hash};

#[test]
fn fnv1a_known_values() {
    assert_eq!(fnv1a(b""), 0xcbf2_9ce4_8422_2325);
    assert_eq!(fnv1a(b"a"), 0xaf63_dc4c_8601_ec8c);
    assert_eq!(fnv1a(b"foobar"), 0x8594_4171_f739_67e8);
    assert_eq!(fnv1a(b"empty_dispatch"), 0xb7df_f052_bd07_b119);
}

#[test]
fn fnv1a_is_incremental_over_concatenation() {
    // Hashing "foo" and then "bar" byte by byte gives the hash of "foobar".
    let whole = fnv1a(b"foobar");
    let mut h: u64 = fnv1a(b"foo");
    for &b in b"bar" {
        h ^= b as u64;
        h = h.wrapping_mul(0x100_0000_01b3);
    }
    assert_eq!(h, whole);
}

#[test]
fn push_le_u64_appends_little_endian() {
    let mut out = vec![0xaa];
    push_le_u64(&mut out, 0x0807_0605_0403_0201);
    assert_eq!(out, vec![0xaa, 1, 2, 3, 4, 5, 6, 7, 8]);
}

#[test]
fn encode_words_le_matches_std_layout() {
    let words = [1u64, 0xdead_beef, u64::MAX];
    let mut expected = Vec::new();
    for w in words {
        expected.extend_from_slice(&w.to_le_bytes());
    }
    assert_eq!(encode_words_le(&words), expected);
    assert_eq!(encode_words_le(&[]).len(), 0);
}

#[test]
fn hash_words_of_zero_is_hash_of_eight_zero_bytes() {
    assert_eq!(hash_words(&[0]), fnv1a(&[0u8; 8]));
    assert_eq!(hash_words(&[0]), 0xa8c7_f832_281a_39c5);
}

#[test]
fn hash_words_exact_value() {
    assert_eq!(hash_words(&[1000, 5]), 0x9c3e_6763_36e5_fbf9);
    assert_ne!(hash_words(&[1000, 5]), hash_words(&[5, 1000]));
}

#[test]
fn dc_result_hash_prefixes_bus_count() {
    assert_eq!(dc_result_hash(&[7, 9]), 0xbcff_f927_57e5_e929);
    assert_eq!(dc_result_hash(&[7, 9]), hash_words(&[2, 7, 9]));
}

#[test]
fn ac_result_hash_interleaves_voltage_and_angle() {
    assert_eq!(ac_result_hash(&[10, 11], &[20, 21]), 0xf045_a9fa_8b7c_37e7);
    assert_eq!(ac_result_hash(&[10, 11], &[20, 21]), hash_words(&[2, 10, 20, 11, 21]));
}

#[test]
fn dispatch_result_hash_layout() {
    assert_eq!(dispatch_result_hash(3, 4, &[5]), 0x0767_751f_a7fe_1f07);
    assert_eq!(dispatch_result_hash(3, 4, &[]), hash_words(&[3, 4]));
}

#[test]
fn frequency_event_hash_uses_timestamp_then_deviation() {
    let deviation: f64 = 0.5;
    let mut buf = [0u8; 16];
    buf[0..8].copy_from_slice(&1000u64.to_le_bytes());
    buf[8..16].copy_from_slice(&deviation.to_bits().to_le_bytes());
    assert_eq!(hash_words(&[1000, deviation.to_bits()]), fnv1a(&buf));
}
