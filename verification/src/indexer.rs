//! Building one project's hash-entry list.
//!
//! Enumerating a project directory and reading or writing cache artifacts
//! is the caller's concern; the decisions are here, verified: which file
//! names count as images, what a cache artifact's bytes yield
//! ([`crate::cache::interpret_cache`]), and the entry computed for an
//! image on a miss.  An image that fails to decode is simply skipped by
//! the caller; a failed cache write never invalidates a computed entry.

use vstd::prelude::*;
use vstd::string::StringSliceAdditionalSpecFns;
use crate::cache::encode_bits;
use crate::cache::decode_bits;
use crate::cache::lemma_cache_round_trip;
use crate::cache::valid_record;
use crate::image_hash::hash_image;
use crate::image_hash::HashType;
use crate::image_hash::ImageHashEntry;
use crate::image_hash::HASH_BIT_LEN;

verus! {

/// Whether a byte is one of the recognized image-name suffixes' bytes is
/// decided on the name's UTF-8 bytes: `.png`, `.jpg` or `.jpeg`, lower
/// case.
pub open spec fn spec_is_image_file(b: Seq<u8>) -> bool {
    ||| (b.len() >= 4 && b[b.len() - 4] == 46u8 && b[b.len() - 3] == 112u8 && b[b.len() - 2]
        == 110u8 && b[b.len() - 1] == 103u8)
    ||| (b.len() >= 4 && b[b.len() - 4] == 46u8 && b[b.len() - 3] == 106u8 && b[b.len() - 2]
        == 112u8 && b[b.len() - 1] == 103u8)
    ||| (b.len() >= 5 && b[b.len() - 5] == 46u8 && b[b.len() - 4] == 106u8 && b[b.len() - 3]
        == 112u8 && b[b.len() - 2] == 101u8 && b[b.len() - 1] == 103u8)
}

/// Whether a file name is recognized as an image: it ends in `.png`,
/// `.jpg` or `.jpeg`, lower case.
pub fn is_image_file(name: &str) -> (r: bool)
    ensures
        r == spec_is_image_file(name.spec_bytes()),
{
    let b = name.as_bytes();
    let n = b.len();
    let png = n >= 4 && b[n - 4] == 46u8 && b[n - 3] == 112u8 && b[n - 2] == 110u8 && b[n - 1]
        == 103u8;
    let jpg = n >= 4 && b[n - 4] == 46u8 && b[n - 3] == 106u8 && b[n - 2] == 112u8 && b[n - 1]
        == 103u8;
    let jpeg = n >= 5 && b[n - 5] == 46u8 && b[n - 4] == 106u8 && b[n - 3] == 112u8 && b[n - 2]
        == 101u8 && b[n - 1] == 103u8;
    png || jpg || jpeg
}

/// The entry computed for one image on a cache miss: the image's path and
/// its freshly computed hash.
pub fn computed_entry(image_path: &str, img: &image::DynamicImage, t: HashType) -> (e:
    ImageHashEntry)
    ensures
        e.image_name@ == image_path@,
        e.wf(),
{
    ImageHashEntry { image_name: image_path.to_owned(), hash: hash_image(img, t) }
}

/// Indexing a second time over a cache populated by the first run
/// recovers the same entry: the record stored for an entry is well formed
/// and decodes to exactly the entry's bit vector, so a later lookup of
/// that artifact is a hit carrying an equal entry, and nothing is
/// recomputed.
pub proof fn lemma_reindex_recovers(e: ImageHashEntry)
    requires
        e.wf(),
    ensures
        valid_record(encode_bits(e.hash@), HASH_BIT_LEN as nat),
        decode_bits(encode_bits(e.hash@)) == e.hash@,
{
    lemma_cache_round_trip(e.hash@);
}

} // verus!
