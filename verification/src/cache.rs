//! The disk-backed hash cache's codec and naming scheme.
//!
//! The cache persists one artifact per (image path, hash type) pair, holding
//! a fixed binary encoding of the image's hash bit vector.  Reading and
//! writing the artifact is the caller's concern; this module fixes the
//! artifact's name, its encoding, and the interpretation of its bytes, so a
//! stored record always reads back as the entry it came from, and anything
//! else reads as corruption, never as a wrong record.

use vstd::prelude::*;
use vstd::string::StringExecFns;
use crate::image_hash::HashType;
use crate::image_hash::ImageHashEntry;
use crate::image_hash::HASH_BIT_LEN;
use crate::metric::ImageHash;

verus! {

/// Error of the cache codec.
#[derive(Clone, Copy, Debug, PartialEq, Eq, Structural)]
pub enum CacheError {
    /// The artifact's bytes are not a record of the expected shape: wrong
    /// length, or a byte that encodes no bit.
    Corrupt,
}

/// The outcome of looking one image's hash up in the cache.
#[derive(Clone, Debug)]
pub enum CacheOutcome {
    /// A well-formed record was found.
    Hit(ImageHashEntry),
    /// No artifact exists for the key; expected, the caller computes now.
    Miss,
    /// An artifact exists but does not decode; the caller recomputes.
    Corrupt,
}

/// The fixed binary encoding of a bit vector: one byte per bit, `1` for a
/// set bit and `0` for a clear one.
pub open spec fn encode_bits(bits: Seq<bool>) -> Seq<u8> {
    Seq::new(bits.len(), |i: int| if bits[i] { 1u8 } else { 0u8 })
}

/// Whether `bytes` is a well-formed record of `expected_len` bits.
pub open spec fn valid_record(bytes: Seq<u8>, expected_len: nat) -> bool {
    &&& bytes.len() == expected_len
    &&& forall|i: int| 0 <= i < bytes.len() ==> #[trigger] bytes[i] == 1u8 || bytes[i] == 0u8
}

/// The bit vector a well-formed record holds.
pub open spec fn decode_bits(bytes: Seq<u8>) -> Seq<bool> {
    Seq::new(bytes.len(), |i: int| bytes[i] == 1u8)
}

/// A record read back immediately after encoding is well formed and holds
/// exactly the bit vector it was made from.
pub proof fn lemma_cache_round_trip(bits: Seq<bool>)
    ensures
        valid_record(encode_bits(bits), bits.len()),
        decode_bits(encode_bits(bits)) == bits,
{
    assert(decode_bits(encode_bits(bits)) =~= bits);
}

/// Encode a hash bit vector as a cache record.
pub fn encode_record(bits: &Vec<bool>) -> (r: Vec<u8>)
    ensures
        r@ == encode_bits(bits@),
{
    let mut out: Vec<u8> = Vec::new();
    let n = bits.len();
    let mut i: usize = 0;
    while i < n
        invariant
            n == bits@.len(),
            i <= n,
            out@.len() == i,
            forall|j: int| 0 <= j < i ==> out@[j] == (if bits@[j] { 1u8 } else { 0u8 }),
        decreases n - i,
    {
        if bits[i] {
            out.push(1u8);
        } else {
            out.push(0u8);
        }
        i = i + 1;
    }
    proof {
        assert(out@ =~= encode_bits(bits@));
    }
    out
}

/// Decode a cache record of `expected_len` bits.  Succeeds exactly on
/// well-formed records, and then returns exactly the recorded bit vector;
/// any other artifact, a truncated one included, is reported corrupt.
pub fn decode_record(bytes: &Vec<u8>, expected_len: usize) -> (r: Result<Vec<bool>, CacheError>)
    ensures
        r is Ok <==> valid_record(bytes@, expected_len as nat),
        r matches Ok(bits) ==> bits@ == decode_bits(bytes@),
        r is Err ==> r matches Err(CacheError::Corrupt),
{
    if bytes.len() != expected_len {
        return Err(CacheError::Corrupt);
    }
    let mut out: Vec<bool> = Vec::new();
    let n = bytes.len();
    let mut i: usize = 0;
    while i < n
        invariant
            n == bytes@.len(),
            i <= n,
            out@.len() == i,
            forall|j: int| 0 <= j < i ==> #[trigger] bytes@[j] == 1u8 || bytes@[j] == 0u8,
            forall|j: int| 0 <= j < i ==> out@[j] == (bytes@[j] == 1u8),
        decreases n - i,
    {
        let b = bytes[i];
        if b == 1u8 {
            out.push(true);
        } else if b == 0u8 {
            out.push(false);
        } else {
            return Err(CacheError::Corrupt);
        }
        i = i + 1;
    }
    proof {
        assert(out@ =~= decode_bits(bytes@));
    }
    Ok(out)
}

/// The artifact-name suffix of a hash type.
pub open spec fn spec_cache_suffix(t: HashType) -> Seq<char> {
    match t {
        HashType::Difference => ".dhash"@,
        HashType::Perceptual => ".phash"@,
    }
}

/// The artifact-name suffix of a hash type.
pub fn cache_suffix(t: HashType) -> (r: &'static str)
    ensures
        r@ == spec_cache_suffix(t),
{
    match t {
        HashType::Difference => ".dhash",
        HashType::Perceptual => ".phash",
    }
}

/// The derived artifact name of an (image path, hash type) key.
pub open spec fn spec_cache_name(image_path: Seq<char>, t: HashType) -> Seq<char> {
    image_path + spec_cache_suffix(t)
}

/// Derive the cache artifact's name for an (image path, hash type) key.
/// The derivation is pure: the same key always names the same artifact.
pub fn cache_file_name(image_path: &str, t: HashType) -> (r: String)
    ensures
        r@ == spec_cache_name(image_path@, t),
{
    image_path.to_owned().concat(cache_suffix(t))
}

/// The two hash types never share one cache artifact: for any image path,
/// their derived names differ.
pub proof fn lemma_cache_names_distinct(image_path: Seq<char>, t1: HashType, t2: HashType)
    requires
        t1 != t2,
    ensures
        spec_cache_name(image_path, t1) != spec_cache_name(image_path, t2),
{
    reveal_strlit(".dhash");
    reveal_strlit(".phash");
    let n1 = spec_cache_name(image_path, t1);
    let n2 = spec_cache_name(image_path, t2);
    assert(n1[image_path.len() as int + 1] != n2[image_path.len() as int + 1]);
}

/// Interpret one cache lookup: absent artifact as a miss, a well-formed
/// record as a hit carrying exactly the recorded entry, anything else as
/// corruption.
pub fn interpret_cache(image_path: &str, bytes: Option<&Vec<u8>>, t: HashType) -> (r: CacheOutcome)
    ensures
        r is Miss <==> bytes is None,
        bytes matches Some(b) ==> if valid_record(b@, HASH_BIT_LEN as nat) {
            r matches CacheOutcome::Hit(e) && e.image_name@ == image_path@ && e.hash@
                == decode_bits(b@) && e.wf()
        } else {
            r is Corrupt
        },
{
    match bytes {
        None => CacheOutcome::Miss,
        Some(b) => {
            match decode_record(b, HASH_BIT_LEN) {
                Ok(bits) => CacheOutcome::Hit(
                    ImageHashEntry {
                        image_name: image_path.to_owned(),
                        hash: ImageHash { bits },
                    },
                ),
                Err(_) => CacheOutcome::Corrupt,
            }
        },
    }
}

} // verus!
