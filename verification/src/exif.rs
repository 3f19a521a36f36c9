use vstd::prelude::*;
use crate::text::{contains_seq, contains_str};

verus! {

/// The text that `String::from_utf8_lossy` makes of bytes (invalid sequences
/// replaced by U+FFFD).
pub uninterp spec fn utf8_lossy(bytes: Seq<u8>) -> Seq<char>;

/// Calls `String::from_utf8_lossy`.  Trusted: the result is the name above.
#[verifier::external_body]
fn lossy_text(bytes: &[u8]) -> (r: String)
    ensures
        r@ == utf8_lossy(bytes@),
{
    String::from_utf8_lossy(bytes).into_owned()
}

/// The position of the first zero byte, if any.
pub open spec fn first_zero_from(bytes: Seq<u8>, i: int) -> Option<int>
    decreases bytes.len() - i,
{
    if i < 0 || i >= bytes.len() {
        None
    } else if bytes[i] == 0 {
        Some(i)
    } else {
        first_zero_from(bytes, i + 1)
    }
}

pub open spec fn first_zero(bytes: Seq<u8>) -> Option<int> {
    first_zero_from(bytes, 0)
}

/// The encoding named before the first zero byte of a user comment.
pub open spec fn comment_encoding(bytes: Seq<u8>, zero: int) -> Seq<char> {
    utf8_lossy(bytes.take(zero))
}

pub open spec fn is_text_encoding(enc: Seq<char>) -> bool {
    enc == "ASCII"@ || enc == "UNICODE"@
}

/// Whether reading the comment stays within its bytes: it has a zero byte,
/// and when it names a text encoding, three bytes follow the zero.
pub open spec fn comment_well_formed(bytes: Seq<u8>) -> bool {
    match first_zero(bytes) {
        Some(z) => is_text_encoding(comment_encoding(bytes, z)) ==> z + 3 <= bytes.len(),
        None => false,
    }
}

/// The text of an EXIF user comment: `<encoding> NUL NUL NUL <data>`; the
/// data when the encoding is `ASCII` or `UNICODE`.
pub open spec fn spec_parse_comment(bytes: Seq<u8>) -> Option<Seq<char>> {
    match first_zero(bytes) {
        Some(z) => if is_text_encoding(comment_encoding(bytes, z)) {
            Some(utf8_lossy(bytes.skip(z + 3)))
        } else {
            None
        },
        None => None,
    }
}

fn find_zero(bytes: &[u8]) -> (r: Option<usize>)
    ensures
        match r {
            Some(z) => first_zero(bytes@) == Some(z as int) && z < bytes@.len(),
            None => first_zero(bytes@) is None,
        },
{
    let mut i: usize = 0;
    while i < bytes.len()
        invariant
            i <= bytes@.len(),
            first_zero(bytes@) == first_zero_from(bytes@, i as int),
        decreases bytes.len() - i,
    {
        if bytes[i] == 0 {
            return Some(i);
        }
        i = i + 1;
    }
    None
}

/// The bytes of `bytes` from `lo` up to `hi`.
fn byte_range(bytes: &[u8], lo: usize, hi: usize) -> (r: Vec<u8>)
    requires
        lo <= hi <= bytes@.len(),
    ensures
        r@ == bytes@.subrange(lo as int, hi as int),
{
    let mut out: Vec<u8> = Vec::new();
    let mut i = lo;
    while i < hi
        invariant
            lo <= i <= hi <= bytes@.len(),
            out@ == bytes@.subrange(lo as int, i as int),
        decreases hi - i,
    {
        out.push(bytes[i]);
        i = i + 1;
        assert(bytes@.subrange(lo as int, i as int) == bytes@.subrange(lo as int, i - 1).push(bytes@[i - 1]));
    }
    out
}

fn same_as(s: &String, lit: &str) -> (r: bool)
    ensures
        r == (s@ == lit@),
{
    let a = crate::text::chars_of(s.as_str());
    crate::media_query::values::eq_chars(a.as_slice(), lit)
}

/// Reads the text of an EXIF user comment, whose bytes must hold a zero byte,
/// followed by three more where the encoding is a text encoding.
pub fn parse_comment(bytes: &[u8]) -> (r: Option<String>)
    requires
        comment_well_formed(bytes@),
    ensures
        match r {
            Some(c) => spec_parse_comment(bytes@) == Some(c@),
            None => spec_parse_comment(bytes@) is None,
        },
{
    let null = match find_zero(bytes) {
        Some(z) => z,
        None => return None,
    };
    let head = byte_range(bytes, 0, null);
    assert(head@ == bytes@.take(null as int));
    let encoding = lossy_text(head.as_slice());
    assert(encoding@ == comment_encoding(bytes@, null as int));
    if same_as(&encoding, "ASCII") || same_as(&encoding, "UNICODE") {
        assert(is_text_encoding(comment_encoding(bytes@, null as int)));
        assert(null + 3 <= bytes@.len());
        let n = bytes.len();
        assert(null + 3 <= n);
        let data = byte_range(bytes, null + 3, bytes.len());
        assert(data@ == bytes@.skip(null + 3));
        let comment = lossy_text(data.as_slice());
        return Some(comment);
    }
    None
}

/// Whether the comment's bytes can be read (see `comment_well_formed`).
pub fn comment_is_readable(bytes: &[u8]) -> (r: bool)
    ensures
        r == comment_well_formed(bytes@),
{
    let null = match find_zero(bytes) {
        Some(z) => z,
        None => return false,
    };
    let head = byte_range(bytes, 0, null);
    assert(head@ == bytes@.take(null as int));
    let encoding = lossy_text(head.as_slice());
    assert(encoding@ == comment_encoding(bytes@, null as int));
    if same_as(&encoding, "ASCII") || same_as(&encoding, "UNICODE") {
        bytes.len() - null >= 3
    } else {
        true
    }
}

/// Reads the text of an EXIF user comment, or `None` where the comment is cut
/// short (no zero byte, or fewer than three bytes after it).
pub fn read_comment(bytes: &[u8]) -> (r: Option<String>)
    ensures
        match r {
            Some(c) => comment_well_formed(bytes@) && spec_parse_comment(bytes@) == Some(c@),
            None => !comment_well_formed(bytes@) || spec_parse_comment(bytes@) is None,
        },
{
    let null = match find_zero(bytes) {
        Some(z) => z,
        None => return None,
    };
    let head = byte_range(bytes, 0, null);
    assert(head@ == bytes@.take(null as int));
    let encoding = lossy_text(head.as_slice());
    if (same_as(&encoding, "ASCII") || same_as(&encoding, "UNICODE")) && bytes.len() - null < 3 {
        return None;
    }
    parse_comment(bytes)
}

/// Whether a user comment marks the image as a screenshot: its text holds
/// `Screenshot`.
pub fn comment_is_screenshot(comment: &Option<String>) -> (r: bool)
    ensures
        r == (comment matches Some(c) && contains_seq(c@, "Screenshot"@)),
{
    match comment {
        Some(c) => contains_str(c.as_str(), "Screenshot"),
        None => false,
    }
}

/// The big-endian number in the first four bytes of `b`.
pub open spec fn be_u32(b: Seq<u8>) -> int {
    b[0] * 0x100_0000 + b[1] * 0x1_0000 + b[2] * 0x100 + b[3]
}

/// Where the EXIF data starts in a HEIF `Exif` metadata block: after the
/// four bytes of the offset, and the offset they give.
pub open spec fn heif_exif_start(b: Seq<u8>) -> int {
    be_u32(b) + 4
}

/// The EXIF data of a HEIF `Exif` metadata block, which begins with the
/// big-endian offset of that data past its own four bytes.
pub fn heif_exif_payload(metadata: &[u8]) -> (r: Vec<u8>)
    requires
        metadata@.len() >= 4,
        heif_exif_start(metadata@) <= metadata@.len(),
    ensures
        r@ == metadata@.subrange(heif_exif_start(metadata@), metadata@.len() as int),
{
    let offset: u64 = (metadata[0] as u64) * 0x100_0000 + (metadata[1] as u64) * 0x1_0000
        + (metadata[2] as u64) * 0x100 + (metadata[3] as u64) + 4;
    let start = offset as usize;
    let mut out: Vec<u8> = Vec::new();
    let mut i: usize = start;
    while i < metadata.len()
        invariant
            start == heif_exif_start(metadata@),
            start <= i <= metadata@.len(),
            out@ == metadata@.subrange(start as int, i as int),
        decreases metadata.len() - i,
    {
        out.push(metadata[i]);
        assert(metadata@.subrange(start as int, i + 1) == metadata@.subrange(start as int, i as int).push(metadata@[i as int]));
        i = i + 1;
    }
    out
}

} // verus!
