//! Distance-metric abstraction over fixed-length bit-vector hashes.
//!
//! Three capabilities, composable and reusable for other hash/metric pairs:
//! [`Metrizable`] (a distance), [`BoundedVariation`] (an achievable range,
//! with clipping and normalization into the unit interval) and
//! [`BoundedMetrizable`] (their composition).  The default implementation is
//! Hamming distance over [`ImageHash`], whose range is `[0, bit length]`.
//!
//! Distances are exact bit counts, and normalized values are exact rationals
//! ([`UnitRatio`]), so every bound here is proved, not approximated.

use vstd::prelude::*;

verus! {

/// Errors of the metric layer.
#[derive(Clone, Copy, Debug, PartialEq, Eq, Structural)]
pub enum MetricError {
    /// The two hash values do not have the same bit length, so no distance
    /// between them is defined.
    LengthMismatch,
    /// The metric's bounds collapse (`max == min`), so no normalization
    /// exists.
    DegenerateRange,
}

/// A bit-vector perceptual hash value.
#[derive(Clone, Debug, PartialEq)]
pub struct ImageHash {
    /// The bit-vector representation of the hash.
    pub bits: Vec<bool>,
}

impl View for ImageHash {
    type V = Seq<bool>;

    open spec fn view(&self) -> Seq<bool> {
        self.bits@
    }
}

/// Number of positions at which two equal-length bit vectors differ.
pub open spec fn hamming(a: Seq<bool>, b: Seq<bool>) -> nat
    decreases a.len(),
{
    if a.len() == 0 {
        0
    } else {
        hamming(a.drop_last(), b.drop_last()) + (if a.last() != b.last() {
            1nat
        } else {
            0nat
        })
    }
}

/// The Hamming distance never exceeds the common length of its arguments.
pub proof fn lemma_hamming_bounds(a: Seq<bool>, b: Seq<bool>)
    requires
        a.len() == b.len(),
    ensures
        hamming(a, b) <= a.len(),
    decreases a.len(),
{
    if a.len() > 0 {
        lemma_hamming_bounds(a.drop_last(), b.drop_last());
    }
}

/// A bit vector is at Hamming distance zero from itself.
pub proof fn lemma_hamming_self(a: Seq<bool>)
    ensures
        hamming(a, a) == 0,
    decreases a.len(),
{
    if a.len() > 0 {
        lemma_hamming_self(a.drop_last());
    }
}

/// The Hamming distance is symmetric.
pub proof fn lemma_hamming_symmetric(a: Seq<bool>, b: Seq<bool>)
    requires
        a.len() == b.len(),
    ensures
        hamming(a, b) == hamming(b, a),
    decreases a.len(),
{
    if a.len() > 0 {
        lemma_hamming_symmetric(a.drop_last(), b.drop_last());
    }
}

/// Capability of measuring a distance between two values of one type.
pub trait Metrizable: Sized {
    /// Whether a distance between the two values is defined.
    spec fn compatible(&self, other: &Self) -> bool;

    /// The mathematical distance, meaningful when `compatible` holds.
    spec fn spec_dist(&self, other: &Self) -> nat;

    /// The distance between `self` and `other`; fails fast when the two
    /// values are incomparable, and never truncates one to fit the other.
    fn dist(&self, other: &Self) -> (r: Result<u64, MetricError>)
        ensures
            r is Ok <==> self.compatible(other),
            r matches Ok(d) ==> d == self.spec_dist(other),
            r is Err ==> r matches Err(MetricError::LengthMismatch),
    ;
}

/// Exact rational in the closed unit interval, as `num / den`.
#[derive(Clone, Copy, Debug, PartialEq, Eq, Structural)]
pub struct UnitRatio {
    pub num: u64,
    pub den: u64,
}

impl UnitRatio {
    /// The ratio is well formed and lies in `[0, 1]`.
    pub open spec fn is_unit(&self) -> bool {
        0 < self.den && self.num <= self.den
    }

    /// Rational comparison `self <= other`, by cross-multiplication.
    pub open spec fn le(&self, other: &UnitRatio) -> bool {
        self.num * other.den <= other.num * self.den
    }
}

/// `value` bounded into `[min, max]`, clipping first from above, then from
/// below.
pub open spec fn spec_clip(min: u64, max: u64, value: u64) -> u64 {
    let high = if value < max {
        value
    } else {
        max
    };
    if high > min {
        high
    } else {
        min
    }
}

/// The normalization `(clip(value) - min) / (max - min)`, meaningful when
/// `min < max`.
pub open spec fn spec_normalize(min: u64, max: u64, value: u64) -> UnitRatio {
    UnitRatio {
        num: (spec_clip(min, max, value) - min) as u64,
        den: (max - min) as u64,
    }
}

/// Normalization is monotonic: a smaller raw value never normalizes to a
/// larger ratio.
pub proof fn lemma_normalize_monotonic(min: u64, max: u64, v1: u64, v2: u64)
    requires
        min < max,
        v1 <= v2,
    ensures
        spec_normalize(min, max, v1).le(&spec_normalize(min, max, v2)),
{
    let q1 = spec_normalize(min, max, v1);
    let q2 = spec_normalize(min, max, v2);
    assert(q1.num <= q2.num);
    assert(q1.num * q2.den <= q2.num * q1.den) by (nonlinear_arith)
        requires
            q1.num <= q2.num,
            q1.den == q2.den,
    ;
}

/// Capability of declaring the achievable range of a measure, and of
/// bounding and normalizing raw values into it.
pub trait BoundedVariation: Sized {
    /// Least achievable value.
    spec fn spec_min(&self) -> u64;

    /// Greatest achievable value.
    spec fn spec_max(&self) -> u64;

    /// Least achievable value.
    fn min(&self) -> (r: u64)
        ensures
            r == self.spec_min(),
    ;

    /// Greatest achievable value.
    fn max(&self) -> (r: u64)
        ensures
            r == self.spec_max(),
    ;

    /// `value` bounded into `[min, max]`.
    fn clip(&self, value: u64) -> (r: u64)
        ensures
            r == spec_clip(self.spec_min(), self.spec_max(), value),
    ;

    /// `value` mapped into the closed unit interval; fails when the range
    /// is degenerate (`max == min`).
    fn normalize(&self, value: u64) -> (r: Result<UnitRatio, MetricError>)
        ensures
            r is Ok <==> self.spec_min() < self.spec_max(),
            r matches Ok(q) ==> q == spec_normalize(self.spec_min(), self.spec_max(), value),
            r matches Ok(q) ==> q.is_unit(),
            r is Err ==> r matches Err(MetricError::DegenerateRange),
    ;
}

/// Composition of a distance with a bounded range: a normalized distance.
pub trait BoundedMetrizable: Metrizable + BoundedVariation {
    /// The distance between `self` and `other`, normalized into `[0, 1]`.
    fn norm_dist(&self, other: &Self) -> (r: Result<UnitRatio, MetricError>)
        ensures
            r is Ok <==> (self.compatible(other) && self.spec_min() < self.spec_max()),
            r matches Ok(q) ==> q == spec_normalize(
                self.spec_min(),
                self.spec_max(),
                self.spec_dist(other) as u64,
            ),
            r matches Ok(q) ==> q.is_unit(),
            !self.compatible(other) ==> r matches Err(MetricError::LengthMismatch),
    ;
}

impl Metrizable for ImageHash {
    /// Two hashes are comparable exactly when their bit lengths agree.
    open spec fn compatible(&self, other: &Self) -> bool {
        self@.len() == other@.len()
    }

    /// Hamming distance: the count of differing bit positions.
    open spec fn spec_dist(&self, other: &Self) -> nat {
        hamming(self@, other@)
    }

    fn dist(&self, other: &Self) -> (r: Result<u64, MetricError>) {
        let n = self.bits.len();
        if n != other.bits.len() {
            return Err(MetricError::LengthMismatch);
        }
        let mut count: u64 = 0;
        let mut i: usize = 0;
        while i < n
            invariant
                n == self@.len(),
                n == other@.len(),
                i <= n,
                count <= i,
                count == hamming(self@.take(i as int), other@.take(i as int)),
            decreases n - i,
        {
            proof {
                assert(self@.take(i + 1).drop_last() =~= self@.take(i as int));
                assert(other@.take(i + 1).drop_last() =~= other@.take(i as int));
            }
            if self.bits[i] != other.bits[i] {
                count = count + 1;
            }
            i = i + 1;
        }
        proof {
            assert(self@.take(n as int) =~= self@);
            assert(other@.take(n as int) =~= other@);
        }
        Ok(count)
    }
}

impl BoundedVariation for ImageHash {
    /// The least achievable Hamming distance is zero.
    open spec fn spec_min(&self) -> u64 {
        0
    }

    /// The greatest achievable Hamming distance is the bit length.
    open spec fn spec_max(&self) -> u64 {
        self@.len() as u64
    }

    fn min(&self) -> (r: u64) {
        0
    }

    fn max(&self) -> (r: u64) {
        self.bits.len() as u64
    }

    fn clip(&self, value: u64) -> (r: u64) {
        let mn = self.min();
        let mx = self.max();
        let high = if value < mx {
            value
        } else {
            mx
        };
        if high > mn {
            high
        } else {
            mn
        }
    }

    fn normalize(&self, value: u64) -> (r: Result<UnitRatio, MetricError>) {
        let mn = self.min();
        let mx = self.max();
        if mx <= mn {
            return Err(MetricError::DegenerateRange);
        }
        let clipped = self.clip(value);
        Ok(UnitRatio { num: clipped - mn, den: mx - mn })
    }
}

impl BoundedMetrizable for ImageHash {
    fn norm_dist(&self, other: &Self) -> (r: Result<UnitRatio, MetricError>) {
        match self.dist(other) {
            Err(e) => Err(e),
            Ok(d) => self.normalize(d),
        }
    }
}

} // verus!
