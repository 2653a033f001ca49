use vismatch_svc::cache::cache_file_name;
use vismatch_svc::cache::decode_record;
use vismatch_svc::cache::encode_record;
use vismatch_svc::cache::interpret_cache;
use vismatch_svc::cache::CacheError;
use vismatch_svc::cache::CacheOutcome;
use vismatch_svc::image_hash::HashType;
use vismatch_svc::image_hash::HASH_BIT_LEN;

fn sample_bits() -> Vec<bool> {
    let mut bits = vec![false; HASH_BIT_LEN];
    bits[0] = true;
    bits[7] = true;
    bits[63] = true;
    bits
}

#[test]
fn stored_record_reads_back_identically() {
    let bits = sample_bits();
    let record = encode_record(&bits);
    assert_eq!(record.len(), bits.len());
    let back = decode_record(&record, HASH_BIT_LEN).unwrap();
    assert_eq!(back, bits);
}

#[test]
fn zero_byte_artifact_is_corrupt() {
    let r = decode_record(&Vec::new(), HASH_BIT_LEN);
    assert_eq!(r.unwrap_err(), CacheError::Corrupt);
}

#[test]
fn wrong_length_artifact_is_corrupt() {
    let record = vec![0u8; HASH_BIT_LEN - 1];
    assert_eq!(decode_record(&record, HASH_BIT_LEN).unwrap_err(), CacheError::Corrupt);
}

#[test]
fn bad_byte_artifact_is_corrupt() {
    let mut record = vec![0u8; HASH_BIT_LEN];
    record[10] = 7;
    assert_eq!(decode_record(&record, HASH_BIT_LEN).unwrap_err(), CacheError::Corrupt);
}

#[test]
fn cache_names_are_per_type_and_deterministic() {
    let d = cache_file_name("photos/cat.png", HashType::Difference);
    let p = cache_file_name("photos/cat.png", HashType::Perceptual);
    assert_eq!(d, "photos/cat.png.dhash");
    assert_eq!(p, "photos/cat.png.phash");
    assert_ne!(d, p);
    assert_eq!(d, cache_file_name("photos/cat.png", HashType::Difference));
}

#[test]
fn missing_artifact_is_a_miss() {
    let r = interpret_cache("img.png", None, HashType::Difference);
    assert!(matches!(r, CacheOutcome::Miss));
}

#[test]
fn valid_artifact_is_a_hit_with_the_recorded_entry() {
    let bits = sample_bits();
    let record = encode_record(&bits);
    match interpret_cache("img.png", Some(&record), HashType::Difference) {
        CacheOutcome::Hit(e) => {
            assert_eq!(e.image_name, "img.png");
            assert_eq!(e.hash.bits, bits);
        },
        _ => panic!("expected a hit"),
    }
}

#[test]
fn truncated_artifact_reads_as_corrupt_and_recompute_succeeds() {
    let truncated: Vec<u8> = Vec::new();
    match interpret_cache("img.png", Some(&truncated), HashType::Difference) {
        CacheOutcome::Corrupt => {},
        _ => panic!("expected corruption"),
    }
    // The caller then recomputes and stores; the fresh record reads back.
    let bits = sample_bits();
    let record = encode_record(&bits);
    match interpret_cache("img.png", Some(&record), HashType::Difference) {
        CacheOutcome::Hit(e) => assert_eq!(e.hash.bits, bits),
        _ => panic!("expected a hit after recompute"),
    }
}
