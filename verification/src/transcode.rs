//! Base64 and image payload conversions.
//!
//! A query image reaches the service as a base64 text, possibly wrapped
//! in a data URI; a result image leaves it the same way.  The text
//! handling (data-URI payload extraction, whitespace trimming) is
//! verified here; the base64 codec and the image codec themselves are
//! external capabilities consumed behind named, trusted contracts.

use vstd::prelude::*;
use vstd::string::StrSliceExecFns;
use base64::Engine;

verus! {

/// Errors of payload transcoding.
#[derive(Clone, Copy, Debug, PartialEq, Eq, Structural)]
pub enum TranscodeError {
    /// The text looks like a data URI but holds no payload after a comma.
    InvalidDataUri,
    /// The payload is not valid base64 text.
    Base64Decode,
    /// The decoded bytes are not a decodable image.
    ImageDecode,
    /// The image cannot be encoded for transport.
    ImageEncode,
}

/// What base64's standard engine decodes a text to, if anything: a
/// function of the text alone.
pub uninterp spec fn b64_decode_of(text: Seq<char>) -> Option<Seq<u8>>;

/// What base64's standard engine encodes a byte sequence to: a function
/// of the bytes alone.
pub uninterp spec fn b64_encode_of(bytes: Seq<u8>) -> Seq<char>;

/// Whether a byte sequence decodes as an image: a function of the bytes
/// alone.
pub uninterp spec fn image_decodable(bytes: Seq<u8>) -> bool;

/// Relies on base64's standard engine: whether a text is valid base64,
/// and to what bytes it decodes, depend on the text alone.
#[verifier::external_body]
fn b64_decode(text: &str) -> (r: Option<Vec<u8>>)
    ensures
        r is Some <==> b64_decode_of(text@) is Some,
        r matches Some(v) ==> b64_decode_of(text@) == Some(v@),
{
    base64::engine::general_purpose::STANDARD.decode(text).ok()
}

/// Relies on base64's standard engine: encoding depends on the bytes
/// alone, and decoding the encoded text yields the bytes back.
#[verifier::external_body]
fn b64_encode(bytes: &Vec<u8>) -> (r: String)
    ensures
        r@ == b64_encode_of(bytes@),
        b64_decode_of(r@) == Some(bytes@),
{
    base64::engine::general_purpose::STANDARD.encode(bytes)
}

/// Relies on image::load_from_memory: whether a byte payload decodes as
/// an image is decided by the bytes alone.
#[verifier::external_body]
fn load_image_from_bytes(bytes: &Vec<u8>) -> (r: Option<image::DynamicImage>)
    ensures
        r is Some <==> image_decodable(bytes@),
{
    image::load_from_memory(bytes.as_slice()).ok()
}

/// Relies on DynamicImage::write_to with the PNG output format: it only
/// fills the given in-memory buffer with the encoded image.
#[verifier::external_body]
fn png_encode(img: &image::DynamicImage) -> (r: Option<Vec<u8>>) {
    let mut data: Vec<u8> = Vec::new();
    let res = img.write_to(&mut std::io::Cursor::new(&mut data), image::ImageOutputFormat::Png);
    match res {
        Ok(_) => Some(data),
        Err(_) => None,
    }
}

/// ASCII whitespace, as trimmed around a data URI's payload.
pub open spec fn spec_is_ws(c: char) -> bool {
    c == ' ' || c == '\t' || c == '\n' || c == '\r' || c == '\u{0b}' || c == '\u{0c}'
}

/// ASCII whitespace, as trimmed around a data URI's payload.
fn is_ws_char(c: char) -> (r: bool)
    ensures
        r == spec_is_ws(c),
{
    c == ' ' || c == '\t' || c == '\n' || c == '\r' || c == '\u{0b}' || c == '\u{0c}'
}

/// The text announces a data URI: it starts with `data:`.
pub open spec fn has_data_prefix(s: Seq<char>) -> bool {
    s.len() >= 5 && s[0] == 'd' && s[1] == 'a' && s[2] == 't' && s[3] == 'a' && s[4] == ':'
}

/// Index of the first occurrence of `c` in `s` at or after `from`, or
/// `s.len()` if there is none.
pub open spec fn find_char(s: Seq<char>, c: char, from: int) -> int
    decreases s.len() - from,
{
    if from < 0 || from >= s.len() {
        s.len() as int
    } else if s[from] == c {
        from
    } else {
        find_char(s, c, from + 1)
    }
}

proof fn lemma_find_char_at(s: Seq<char>, c: char, k: int, from: int)
    requires
        0 <= from <= k <= s.len(),
        forall|j: int| from <= j < k ==> s[j] != c,
        k == s.len() || s[k] == c,
    ensures
        find_char(s, c, from) == k,
    decreases k - from,
{
    if from < k {
        lemma_find_char_at(s, c, k, from + 1);
    }
}

/// `s` with its leading whitespace removed.
pub open spec fn trim_front(s: Seq<char>) -> Seq<char>
    decreases s.len(),
{
    if s.len() > 0 && spec_is_ws(s[0]) {
        trim_front(s.drop_first())
    } else {
        s
    }
}

/// `s` with its trailing whitespace removed.
pub open spec fn trim_back(s: Seq<char>) -> Seq<char>
    decreases s.len(),
{
    if s.len() > 0 && spec_is_ws(s.last()) {
        trim_back(s.drop_last())
    } else {
        s
    }
}

/// `s` with whitespace removed at both ends.
pub open spec fn spec_trim(s: Seq<char>) -> Seq<char> {
    trim_back(trim_front(s))
}

proof fn lemma_trim_front_skip(s: Seq<char>, k: int)
    requires
        0 <= k <= s.len(),
        forall|j: int| 0 <= j < k ==> spec_is_ws(#[trigger] s[j]),
        k == s.len() || !spec_is_ws(s[k]),
    ensures
        trim_front(s) == s.skip(k),
    decreases k,
{
    if k == 0 {
        assert(s.skip(0) =~= s);
    } else {
        lemma_trim_front_skip(s.drop_first(), k - 1);
        assert(s.drop_first().skip(k - 1) =~= s.skip(k));
    }
}

proof fn lemma_trim_back_take(s: Seq<char>, m: int)
    requires
        0 <= m <= s.len(),
        forall|j: int| m <= j < s.len() ==> spec_is_ws(#[trigger] s[j]),
        m == 0 || !spec_is_ws(s[m - 1]),
    ensures
        trim_back(s) == s.take(m),
    decreases s.len(),
{
    if m == s.len() {
        assert(s.take(m) =~= s);
    } else {
        lemma_trim_back_take(s.drop_last(), m);
        assert(s.drop_last().take(m) =~= s.take(m));
    }
}

/// The base64 payload of a comparison request's text: the text itself
/// when it is no data URI; the trimmed part between the first comma and
/// the second comma or the end when it is one; nothing when it announces
/// a data URI but holds no comma.
pub open spec fn spec_payload(s: Seq<char>) -> Option<Seq<char>> {
    if has_data_prefix(s) {
        let c1 = find_char(s, ',', 0);
        if c1 == s.len() {
            None
        } else {
            Some(spec_trim(s.subrange(c1 + 1, find_char(s, ',', c1 + 1))))
        }
    } else {
        Some(s)
    }
}

/// Decode a bare base64 payload and then the image it holds.
fn decode_payload(text: &str) -> (r: Result<image::DynamicImage, TranscodeError>)
    ensures
        match b64_decode_of(text@) {
            None => r matches Err(TranscodeError::Base64Decode),
            Some(bs) => if image_decodable(bs) {
                r is Ok
            } else {
                r matches Err(TranscodeError::ImageDecode)
            },
        },
        !(r matches Err(TranscodeError::InvalidDataUri)),
{
    match b64_decode(text) {
        None => Err(TranscodeError::Base64Decode),
        Some(bytes) => match load_image_from_bytes(&bytes) {
            None => Err(TranscodeError::ImageDecode),
            Some(img) => Ok(img),
        },
    }
}

/// Decode a base64 text, or the payload of a data URI, into an image.
/// Exactly the text with an unusable data-URI shape is an
/// `InvalidDataUri` error; a payload that is no base64 text is a
/// `Base64Decode` error; bytes that are no image are an `ImageDecode`
/// error; everything else decodes.
pub fn base64_to_image(base64_str: &str) -> (r: Result<image::DynamicImage, TranscodeError>)
    ensures
        r matches Err(TranscodeError::InvalidDataUri) <==> spec_payload(base64_str@) is None,
        spec_payload(base64_str@) matches Some(p) ==> match b64_decode_of(p) {
            None => r matches Err(TranscodeError::Base64Decode),
            Some(bs) => if image_decodable(bs) {
                r is Ok
            } else {
                r matches Err(TranscodeError::ImageDecode)
            },
        },
{
    let n = base64_str.unicode_len();
    let has_prefix = n >= 5 && base64_str.get_char(0) == 'd' && base64_str.get_char(1) == 'a'
        && base64_str.get_char(2) == 't' && base64_str.get_char(3) == 'a' && base64_str.get_char(4)
        == ':';
    if !has_prefix {
        return decode_payload(base64_str);
    }
    let mut i: usize = 0;
    while i < n && base64_str.get_char(i) != ','
        invariant
            i <= n,
            n == base64_str@.len(),
            forall|j: int| 0 <= j < i ==> base64_str@[j] != ',',
        decreases n - i,
    {
        i = i + 1;
    }
    proof {
        lemma_find_char_at(base64_str@, ',', i as int, 0);
    }
    if i == n {
        return Err(TranscodeError::InvalidDataUri);
    }
    let mut j: usize = i + 1;
    while j < n && base64_str.get_char(j) != ','
        invariant
            i + 1 <= j <= n,
            n == base64_str@.len(),
            forall|q: int| i + 1 <= q < j ==> base64_str@[q] != ',',
        decreases n - j,
    {
        j = j + 1;
    }
    proof {
        lemma_find_char_at(base64_str@, ',', j as int, i as int + 1);
    }
    let seg = base64_str.substring_char(i + 1, j);
    let m = j - (i + 1);
    let mut start: usize = 0;
    while start < m && is_ws_char(seg.get_char(start))
        invariant
            start <= m,
            m == seg@.len(),
            forall|q: int| 0 <= q < start ==> spec_is_ws(#[trigger] seg@[q]),
        decreases m - start,
    {
        start = start + 1;
    }
    let mut end: usize = m;
    while end > start && is_ws_char(seg.get_char(end - 1))
        invariant
            start <= end <= m,
            m == seg@.len(),
            forall|q: int| end <= q < m ==> spec_is_ws(#[trigger] seg@[q]),
        decreases end,
    {
        end = end - 1;
    }
    proof {
        lemma_trim_front_skip(seg@, start as int);
        lemma_trim_back_take(seg@.skip(start as int), end - start);
        assert(seg@.skip(start as int).take(end - start) =~= seg@.subrange(
            start as int,
            end as int,
        ));
    }
    let payload = seg.substring_char(start, end);
    proof {
        assert(payload@ == spec_trim(seg@));
        assert(spec_payload(base64_str@) == Some(payload@));
    }
    decode_payload(payload)
}

/// Encode an image as the base64 text of its PNG bytes.  A successful
/// result is genuine base64: it decodes back to the encoded bytes.
pub fn image_to_base64(image: &image::DynamicImage) -> (r: Result<String, TranscodeError>)
    ensures
        r matches Ok(s) ==> exists|bs: Seq<u8>|
            s@ == b64_encode_of(bs) && #[trigger] b64_decode_of(s@) == Some(bs),
        r is Err ==> r matches Err(TranscodeError::ImageEncode),
{
    match png_encode(image) {
        None => Err(TranscodeError::ImageEncode),
        Some(data) => {
            let s = b64_encode(&data);
            proof {
                assert(s@ == b64_encode_of(data@) && b64_decode_of(s@) == Some(data@));
            }
            Ok(s)
        },
    }
}

/// A request or payload that carries exactly one image.
pub trait HasSingleImage {
    /// Decode and return the carried image.
    fn get_image(&self) -> Result<image::DynamicImage, TranscodeError>;
}

} // verus!
