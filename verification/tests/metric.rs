use vismatch_svc::metric::BoundedMetrizable;
use vismatch_svc::metric::BoundedVariation;
use vismatch_svc::metric::ImageHash;
use vismatch_svc::metric::MetricError;
use vismatch_svc::metric::Metrizable;
use vismatch_svc::metric::UnitRatio;

fn hash_of(bits: Vec<bool>) -> ImageHash {
    ImageHash { bits }
}

#[test]
fn hamming_distance_counts_differing_bits() {
    let a = hash_of(vec![true, false, true, false]);
    let b = hash_of(vec![true, true, false, false]);
    assert_eq!(a.dist(&b).unwrap(), 2);
    assert_eq!(b.dist(&a).unwrap(), 2);
}

#[test]
fn distance_to_itself_is_zero() {
    let a = hash_of(vec![true, false, true, true, false]);
    assert_eq!(a.dist(&a).unwrap(), 0);
}

#[test]
fn distance_is_at_most_the_length() {
    let a = hash_of(vec![true, true, true, true]);
    let b = hash_of(vec![false, false, false, false]);
    assert_eq!(a.dist(&b).unwrap(), 4);
}

#[test]
fn length_mismatch_is_a_typed_error() {
    let a = hash_of(vec![true, false]);
    let b = hash_of(vec![true, false, true]);
    assert_eq!(a.dist(&b).unwrap_err(), MetricError::LengthMismatch);
}

#[test]
fn bounds_are_zero_and_bit_length() {
    let a = hash_of(vec![false; 64]);
    assert_eq!(a.min(), 0);
    assert_eq!(a.max(), 64);
}

#[test]
fn clip_bounds_values_into_the_range() {
    let a = hash_of(vec![false; 64]);
    assert_eq!(a.clip(10), 10);
    assert_eq!(a.clip(1000), 64);
}

#[test]
fn normalize_yields_exact_unit_ratios() {
    let a = hash_of(vec![false; 64]);
    assert_eq!(a.normalize(32).unwrap(), UnitRatio { num: 32, den: 64 });
    assert_eq!(a.normalize(0).unwrap(), UnitRatio { num: 0, den: 64 });
    assert_eq!(a.normalize(1000).unwrap(), UnitRatio { num: 64, den: 64 });
}

#[test]
fn normalize_is_monotonic_on_samples() {
    let a = hash_of(vec![false; 64]);
    let lo = a.normalize(10).unwrap();
    let hi = a.normalize(20).unwrap();
    assert!((lo.num as u128) * (hi.den as u128) <= (hi.num as u128) * (lo.den as u128));
}

#[test]
fn degenerate_range_fails_to_normalize() {
    let empty = hash_of(Vec::new());
    assert_eq!(empty.normalize(0).unwrap_err(), MetricError::DegenerateRange);
}

#[test]
fn norm_dist_is_the_normalized_distance() {
    let mut xs = vec![false; 64];
    let ys = vec![false; 64];
    xs[0] = true;
    xs[1] = true;
    let a = hash_of(xs);
    let b = hash_of(ys);
    assert_eq!(a.norm_dist(&b).unwrap(), UnitRatio { num: 2, den: 64 });
}
