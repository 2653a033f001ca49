//! Perceptual-hash entries and the similarity list.
//!
//! The hashing algorithms themselves (resize, transform, bit extraction) are
//! an external capability; this module consumes them as opaque functions that
//! yield a fixed-length bit vector, and keeps all the logic that works on
//! those bit vectors verified.

use vstd::prelude::*;
use crate::metric::hamming;
use crate::metric::ImageHash;
use crate::metric::MetricError;
use crate::metric::Metrizable;

verus! {

/// Which hashing algorithm produced a hash.  The type also selects the
/// cache artifact's identity, so the two algorithms' artifacts coexist.
#[derive(Clone, Copy, Debug, PartialEq, Eq, Structural)]
pub enum HashType {
    /// Difference hash (dHash).
    Difference,
    /// Perceptual hash (pHash).
    Perceptual,
}

/// Bit length of every hash value, for either hash type.
pub const HASH_BIT_LEN: usize = 64;

/// One image of a project together with its hash.
#[derive(Clone, Debug, PartialEq)]
pub struct ImageHashEntry {
    /// Stable identity of the image: its path.
    pub image_name: String,
    /// The image's fixed-length bit-vector hash.
    pub hash: ImageHash,
}

impl ImageHashEntry {
    /// The entry's hash has the configured bit length.
    pub open spec fn wf(&self) -> bool {
        self.hash@.len() == HASH_BIT_LEN
    }
}

/// One image of a project together with its distance to a query image.
#[derive(Clone, Debug, PartialEq)]
pub struct ImageDistEntry {
    /// Stable identity of the image: its path.
    pub image_name: String,
    /// Hamming distance between the image's hash and the query's hash.
    pub distance: u64,
}

/// The external dynamic-image type, opaque to this crate: values of it are
/// only carried between the decode and hash capabilities.
#[verifier::external_type_specification]
#[verifier::external_body]
pub struct ExDynamicImage(image::DynamicImage);

/// Relies on `imagehash::difference_hash`: with its default parameters the
/// image is resized to 9 by 8 and each row yields 8 comparison bits, so the
/// result always holds 64 bits.
#[verifier::external_body]
fn difference_hash_bits(img: &image::DynamicImage) -> (r: Vec<bool>)
    ensures
        r@.len() == HASH_BIT_LEN,
{
    imagehash::difference_hash(img).bits
}

/// Relies on `imagehash::perceptual_hash`: with its default parameters the
/// image is resized to 32 by 32 and 8 low frequencies of 8 transformed rows
/// are kept, so the result always holds 64 bits.
#[verifier::external_body]
fn perceptual_hash_bits(img: &image::DynamicImage) -> (r: Vec<bool>)
    ensures
        r@.len() == HASH_BIT_LEN,
{
    imagehash::perceptual_hash(img).bits
}

/// The hash of `img` under the algorithm `t`: a bit vector of the
/// configured length.
pub fn hash_image(img: &image::DynamicImage, t: HashType) -> (r: ImageHash)
    ensures
        r@.len() == HASH_BIT_LEN,
{
    let bits = match t {
        HashType::Difference => difference_hash_bits(img),
        HashType::Perceptual => perceptual_hash_bits(img),
    };
    ImageHash { bits }
}

/// The distance entry of one hash entry against a query hash.
pub open spec fn spec_dist_entry(query: ImageHash, e: ImageHashEntry) -> ImageDistEntry {
    ImageDistEntry { image_name: e.image_name, distance: hamming(query@, e.hash@) as u64 }
}

/// The distance entries of a whole hash list against a query hash, in list
/// order.
pub open spec fn spec_dist_entries(query: ImageHash, l: Seq<ImageHashEntry>) -> Seq<
    ImageDistEntry,
> {
    Seq::new(l.len(), |i: int| spec_dist_entry(query, l[i]))
}

/// Every entry's hash has the same bit length as the query hash, so each
/// distance is defined.
pub open spec fn hash_lengths_match(query: ImageHash, l: Seq<ImageHashEntry>) -> bool {
    forall|i: int| 0 <= i < l.len() ==> query@.len() == #[trigger] l[i].hash@.len()
}

/// The distance of the query hash to every entry of the list, in list
/// order.  Fails fast, with nothing compared, when any entry's bit length
/// differs from the query's.
pub fn calc_similarity_list(query: &ImageHash, hash_list: &Vec<ImageHashEntry>) -> (r: Result<
    Vec<ImageDistEntry>,
    MetricError,
>)
    ensures
        r is Ok <==> hash_lengths_match(*query, hash_list@),
        r matches Ok(v) ==> v@ == spec_dist_entries(*query, hash_list@),
        r is Err ==> r matches Err(MetricError::LengthMismatch),
{
    let mut out: Vec<ImageDistEntry> = Vec::new();
    let n = hash_list.len();
    let mut i: usize = 0;
    while i < n
        invariant
            n == hash_list@.len(),
            i <= n,
            out@.len() == i,
            forall|j: int| 0 <= j < i ==> query@.len() == #[trigger] hash_list@[j].hash@.len(),
            forall|j: int| 0 <= j < i ==> out@[j] == spec_dist_entry(*query, hash_list@[j]),
        decreases n - i,
    {
        let entry = &hash_list[i];
        match query.dist(&entry.hash) {
            Ok(d) => {
                out.push(ImageDistEntry { image_name: entry.image_name.clone(), distance: d });
            },
            Err(_) => {
                proof {
                    assert(!hash_lengths_match(*query, hash_list@));
                }
                return Err(MetricError::LengthMismatch);
            },
        }
        i = i + 1;
    }
    proof {
        assert(out@ =~= spec_dist_entries(*query, hash_list@));
    }
    Ok(out)
}

} // verus!
