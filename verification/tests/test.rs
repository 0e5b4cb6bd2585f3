use xorfilter::util::{fingerprint, fingerprint_byte, low32, mixsplit, murmur64, reduce, rotl64,
    splitmix64};
use xorfilter::{Hashes, KeyIndex, Xor8};

#[test]
fn contains_works_when_elem_is_present() {
    let keys: Vec<u64> = vec![1, 29, 7];
    let filter = Xor8::new(keys);
    assert!(filter.contains(1));
    assert!(filter.contains(29));
    assert!(filter.contains(7));
}

#[test]
fn contains_works_when_elem_is_not_present() {
    let keys: Vec<u64> = vec![1, 2, 3];
    let filter = Xor8::new(keys);
    assert!(!filter.contains(0));
    assert!(!filter.contains(12));
    assert!(!filter.contains(7));
}

#[test]
fn filter_can_be_empty() {
    let keys: Vec<u64> = vec![];
    let filter = Xor8::new(keys);
    assert!(!filter.contains(2));
    assert!(!filter.contains(0));
    assert!(!filter.contains(29));
}

#[test]
fn no_false_negatives_on_ten_thousand_keys() {
    let keys: Vec<u64> = (1..=10_000).collect();
    let filter = Xor8::new(keys);
    for k in 1..=10_000u64 {
        assert!(filter.contains(k));
    }
}

#[test]
fn false_positive_rate_is_bounded() {
    let keys: Vec<u64> = (1..=10_000).collect();
    let filter = Xor8::new(keys);
    let mut false_positives: u32 = 0;
    for k in 20_000..120_000u64 {
        if filter.contains(k) {
            false_positives += 1;
        }
    }
    // about 1/256 of 100,000 disjoint probes, so roughly 300 to 500
    assert!(false_positives >= 300 && false_positives <= 500);
}

#[test]
fn build_is_reproducible() {
    let filter_a = Xor8::new(vec![5, 17, 88, 3, 1_000_000, 42]);
    let filter_b = Xor8::new(vec![5, 17, 88, 3, 1_000_000, 42]);
    assert_eq!(filter_a.seed(), filter_b.seed());
    assert_eq!(filter_a.block_length(), filter_b.block_length());
    assert_eq!(filter_a.fingerprints(), filter_b.fingerprints());
}

#[test]
fn contains_is_deterministic() {
    let filter = Xor8::new(vec![10, 20, 30]);
    let first = filter.contains(20);
    for _ in 0..10 {
        assert_eq!(filter.contains(20), first);
    }
    let absent = filter.contains(999);
    for _ in 0..10 {
        assert_eq!(filter.contains(999), absent);
    }
}

#[test]
fn table_size_matches_formula() {
    for n in [0usize, 1, 2, 3, 10, 100, 1_000, 10_000] {
        let keys: Vec<u64> = (0..n as u64).map(|k| k * 3 + 1).collect();
        let filter = Xor8::new(keys);
        let capacity = (32 + (123 * n + 99) / 100) / 3 * 3;
        assert_eq!(filter.block_length() as usize, capacity / 3);
        assert_eq!(filter.fingerprints().len(), 3 * filter.block_length() as usize);
    }
}

#[test]
fn empty_filter_table_is_all_zero() {
    let filter = Xor8::new(Vec::new());
    assert_eq!(filter.seed(), 0x910a_2dec_8902_5cc1);
    assert_eq!(filter.block_length(), 10);
    assert_eq!(filter.fingerprints().len(), 30);
    assert!(filter.fingerprints().iter().all(|&b| b == 0));
}

#[test]
fn empty_filter_accepts_only_zero_fingerprint_bytes() {
    // With an all-zero table a key is reported present exactly when its
    // fingerprint byte is zero; 406 is the smallest such key for the seed
    // the empty build settles on, every other key below it is rejected.
    let filter = Xor8::new(Vec::new());
    for k in 0..406u64 {
        assert!(!filter.contains(k));
        assert_ne!(fingerprint_byte(mixsplit(k, filter.seed())), 0);
    }
    assert!(filter.contains(406));
    assert_eq!(fingerprint_byte(mixsplit(406, filter.seed())), 0);
}

#[test]
fn assigning_a_peel_order_makes_its_keys_present() {
    // Start from the all-zero table of the empty build and hand the
    // assignment phase a one-entry removal stack: the key's edge, peeled
    // from block 0. Afterwards the key must be reported present.
    let mut filter = Xor8::new(Vec::new());
    let key: u64 = 42;
    let hash = mixsplit(key, filter.seed());
    let vertex0 = reduce(low32(hash), filter.block_length());
    assert!(!filter.contains(key));
    filter.assign_fingerprints(vec![KeyIndex { hash, index: vertex0 }]);
    assert!(filter.contains(key));
}

#[test]
fn murmur64_matches_reference_values() {
    assert_eq!(murmur64(0), 0);
    assert_eq!(murmur64(1), 0xb456_bcfc_34c2_cb2c);
    assert_eq!(murmur64(0xdead_beef), 0xd24b_d59f_862a_1dac);
}

#[test]
fn splitmix64_draws_the_documented_sequence() {
    let mut counter: u64 = 1;
    assert_eq!(splitmix64(&mut counter), 0x910a_2dec_8902_5cc1);
    assert_eq!(counter, 0x9e37_79b9_7f4a_7c16);
    assert_eq!(splitmix64(&mut counter), 0xbeeb_8da1_658e_ec67);
    assert_eq!(counter, 0x3c6e_f372_fe94_f82b);
}

#[test]
fn mixsplit_adds_seed_with_wraparound() {
    assert_eq!(mixsplit(42, 7), murmur64(49));
    assert_eq!(mixsplit(42, 7), 0xcf8f_fb89_367b_9db1);
    // key + seed wraps past 2^64
    assert_eq!(mixsplit(u64::MAX, 5), murmur64(4));
    assert_eq!(mixsplit(u64::MAX, 5), 0x4790_0468_a8f0_1875);
}

#[test]
fn rotl64_rotates_modulo_64() {
    let x: u64 = 0x0123_4567_89ab_cdef;
    assert_eq!(rotl64(x, 21), 0xacf1_3579_bde0_2468);
    assert_eq!(rotl64(x, -21), 0x5e6f_7809_1a2b_3c4d);
    assert_eq!(rotl64(x, -21), rotl64(x, 43));
    assert_eq!(rotl64(x, 0), x);
    assert_eq!(rotl64(x, 64), x);
    assert_eq!(rotl64(x, 21 + 64), rotl64(x, 21));
}

#[test]
fn reduce_maps_into_range_without_division() {
    assert_eq!(reduce(0xffff_ffff, 100), 99);
    assert_eq!(reduce(0x8000_0000, 100), 50);
    assert_eq!(reduce(0, 100), 0);
    assert_eq!(reduce(0xffff_ffff, 1), 0);
    for x in [0u32, 1, 0x1234_5678, 0xdead_beef, 0xffff_ffff] {
        assert!(reduce(x, 977) < 977);
    }
}

#[test]
fn fingerprint_folds_the_upper_half() {
    let h: u64 = 0x1234_5678_9abc_def0;
    assert_eq!(fingerprint(h), 0x1234_5678_8888_8888);
    assert_eq!(fingerprint_byte(h), 0x88);
    assert_eq!(low32(h), 0x9abc_def0);
}

#[test]
fn hashes_bundle_keeps_its_fields() {
    let hs = Hashes::new(0xfeed_f00d, 3, 7, 11);
    assert_eq!(hs.h, 0xfeed_f00d);
    assert_eq!(hs.h0, 3);
    assert_eq!(hs.h1, 7);
    assert_eq!(hs.h2, 11);
}
