//! Content fingerprints: a SHA-256 digest over a canonical, kind-tagged
//! byte encoding of a clipboard value.

use crate::content::{ClipboardContent, ContentView};
use sha2::Digest;
use vstd::prelude::*;
use vstd::utf8::{
    encode_utf8, encode_utf8_decode_utf8, is_ascii_chars, is_ascii_chars_encode_utf8,
};

verus! {

/// Number of bytes in a fingerprint.
pub const FINGERPRINT_LEN: usize = 32;

/// The SHA-256 digest of a byte string, as computed by the `sha2` crate.
pub uninterp spec fn sha256(data: Seq<u8>) -> Seq<u8>;

/// The four bytes of `value`, least significant first.
pub open spec fn le_bytes(value: u32) -> Seq<u8> {
    seq![
        (value % 256) as u8,
        ((value / 256) % 256) as u8,
        ((value / 65536) % 256) as u8,
        (value / 16777216) as u8,
    ]
}

/// The eight bytes of `value`, least significant first: those of its low
/// half, then those of its high half.
pub open spec fn le_bytes8(value: u64) -> Seq<u8> {
    le_bytes((value % 4294967296) as u32) + le_bytes((value / 4294967296) as u32)
}

/// The canonical encoding of a content value: a tag naming its kind, then
/// its text fields as UTF-8, then its numeric fields in little-endian order.
/// Where two text fields follow each other, the byte length of the first
/// stands before it, so that the encoding tells where one ends and the
/// other begins.
pub open spec fn canonical_bytes(content: ContentView) -> Seq<u8> {
    match content {
        ContentView::Text(text) => encode_utf8("text:"@) + encode_utf8(text),
        ContentView::Image { data, width, height } => encode_utf8("image:"@) + encode_utf8(data)
            + le_bytes(width) + le_bytes(height),
        ContentView::Html { html, text } => encode_utf8("html:"@) + le_bytes8(
            encode_utf8(html).len() as u64,
        ) + encode_utf8(html) + encode_utf8(text),
    }
}

/// The fingerprint of a content value.
pub open spec fn fingerprint_of(content: ContentView) -> Seq<u8> {
    sha256(canonical_bytes(content))
}

/// Calls `sha2::Sha256::digest` on `data`. Trusted: the result is the
/// SHA-256 digest of exactly these bytes, which is 32 bytes long.
#[verifier::external_body]
fn sha256_digest(data: &[u8]) -> (digest: Vec<u8>)
    ensures
        digest@ == sha256(data@),
        digest@.len() == FINGERPRINT_LEN,
{
    sha2::Sha256::digest(data).to_vec()
}

/// Appends the little-endian bytes of `value` to `out`.
fn push_le_bytes(out: &mut Vec<u8>, value: u32)
    ensures
        final(out)@ == old(out)@ + le_bytes(value),
{
    out.push((value % 256) as u8);
    out.push(((value / 256) % 256) as u8);
    out.push(((value / 65536) % 256) as u8);
    out.push((value / 16777216) as u8);
    assert(out@ =~= old(out)@ + le_bytes(value));
}

/// Appends the eight little-endian bytes of `value` to `out`.
fn push_le_bytes8(out: &mut Vec<u8>, value: u64)
    ensures
        final(out)@ == old(out)@ + le_bytes8(value),
{
    push_le_bytes(out, (value % 4294967296) as u32);
    push_le_bytes(out, (value / 4294967296) as u32);
    assert(out@ =~= old(out)@ + le_bytes8(value));
}

/// Appends the UTF-8 bytes of `text` to `out`.
fn push_utf8(out: &mut Vec<u8>, text: &str)
    ensures
        final(out)@ == old(out)@ + encode_utf8(text@),
{
    out.extend_from_slice(text.as_bytes());
    assert(out@ =~= old(out)@ + encode_utf8(text@));
}

/// Builds the canonical encoding of `content`.
pub fn canonical_encoding(content: &ClipboardContent) -> (bytes: Vec<u8>)
    ensures
        bytes@ == canonical_bytes(content@),
{
    let mut bytes: Vec<u8> = Vec::new();
    match content {
        ClipboardContent::Text(text) => {
            push_utf8(&mut bytes, "text:");
            push_utf8(&mut bytes, text.as_str());
        },
        ClipboardContent::Image { data, width, height } => {
            push_utf8(&mut bytes, "image:");
            push_utf8(&mut bytes, data.as_str());
            push_le_bytes(&mut bytes, *width);
            push_le_bytes(&mut bytes, *height);
        },
        ClipboardContent::Html { html, text } => {
            push_utf8(&mut bytes, "html:");
            push_le_bytes8(&mut bytes, html.as_str().as_bytes().len() as u64);
            push_utf8(&mut bytes, html.as_str());
            push_utf8(&mut bytes, text.as_str());
        },
    }
    assert(bytes@ =~= canonical_bytes(content@));
    bytes
}

/// A fixed-size digest that stands for a content value when two values are
/// compared for change.
#[derive(Debug)]
pub struct Fingerprint {
    digest: Vec<u8>,
}

impl View for Fingerprint {
    type V = Seq<u8>;

    closed spec fn view(&self) -> Seq<u8> {
        self.digest@
    }
}

impl Fingerprint {
    /// Fingerprints `content`.
    pub fn of(content: &ClipboardContent) -> (fingerprint: Fingerprint)
        ensures
            fingerprint@ == fingerprint_of(content@),
            fingerprint@.len() == FINGERPRINT_LEN,
    {
        let bytes = canonical_encoding(content);
        Fingerprint { digest: sha256_digest(bytes.as_slice()) }
    }

    /// The digest bytes.
    pub fn as_bytes(&self) -> (bytes: &[u8])
        ensures
            bytes@ == self@,
    {
        self.digest.as_slice()
    }

    /// Whether two fingerprints hold the same digest.
    pub fn matches(&self, other: &Fingerprint) -> (same: bool)
        ensures
            same == (self@ == other@),
    {
        let a = self.digest.as_slice();
        let b = other.digest.as_slice();
        if a.len() != b.len() {
            return false;
        }
        let mut i: usize = 0;
        while i < a.len()
            invariant
                a@ == self@,
                b@ == other@,
                a@.len() == b@.len(),
                i <= a@.len(),
                a@.take(i as int) == b@.take(i as int),
            decreases a@.len() - i,
        {
            if a[i] != b[i] {
                return false;
            }
            assert(a@.take(i + 1) =~= a@.take(i as int).push(a@[i as int]));
            assert(b@.take(i + 1) =~= b@.take(i as int).push(b@[i as int]));
            i += 1;
        }
        assert(a@ =~= a@.take(i as int));
        assert(b@ =~= b@.take(i as int));
        true
    }
}

/// Whether two content values are of the same kind.
pub open spec fn same_kind(a: ContentView, b: ContentView) -> bool {
    match (a, b) {
        (ContentView::Text(_), ContentView::Text(_)) => true,
        (ContentView::Image { .. }, ContentView::Image { .. }) => true,
        (ContentView::Html { .. }, ContentView::Html { .. }) => true,
        _ => false,
    }
}

/// The bytes of the three tags.
pub proof fn lemma_tag_bytes()
    ensures
        encode_utf8("text:"@) == seq![116u8, 101, 120, 116, 58],
        encode_utf8("image:"@) == seq![105u8, 109, 97, 103, 101, 58],
        encode_utf8("html:"@) == seq![104u8, 116, 109, 108, 58],
{
    reveal_strlit("text:");
    reveal_strlit("image:");
    reveal_strlit("html:");
    assert(is_ascii_chars("text:"@));
    assert(is_ascii_chars("image:"@));
    assert(is_ascii_chars("html:"@));
    is_ascii_chars_encode_utf8("text:"@);
    is_ascii_chars_encode_utf8("image:"@);
    is_ascii_chars_encode_utf8("html:"@);
    assert(encode_utf8("text:"@) =~= seq![116u8, 101, 120, 116, 58]);
    assert(encode_utf8("image:"@) =~= seq![105u8, 109, 97, 103, 101, 58]);
    assert(encode_utf8("html:"@) =~= seq![104u8, 116, 109, 108, 58]);
}

/// Values of different kinds never share a canonical encoding, whatever
/// they hold: a text and an image that carries the same bytes are told
/// apart by the tag.
pub proof fn lemma_kinds_are_told_apart(a: ContentView, b: ContentView)
    requires
        !same_kind(a, b),
    ensures
        canonical_bytes(a) != canonical_bytes(b),
{
    lemma_tag_bytes();
    assert(canonical_bytes(a)[0] == match a {
        ContentView::Text(_) => 116u8,
        ContentView::Image { .. } => 105u8,
        ContentView::Html { .. } => 104u8,
    });
    assert(canonical_bytes(b)[0] == match b {
        ContentView::Text(_) => 116u8,
        ContentView::Image { .. } => 105u8,
        ContentView::Html { .. } => 104u8,
    });
}

/// Two texts with the same canonical encoding are the same text.
pub proof fn lemma_texts_are_told_apart(a: Seq<char>, b: Seq<char>)
    requires
        canonical_bytes(ContentView::Text(a)) == canonical_bytes(ContentView::Text(b)),
    ensures
        a == b,
{
    lemma_tag_bytes();
    let tag = encode_utf8("text:"@);
    assert((tag + encode_utf8(a)).skip(5) =~= encode_utf8(a));
    assert((tag + encode_utf8(b)).skip(5) =~= encode_utf8(b));
    encode_utf8_decode_utf8(a);
    encode_utf8_decode_utf8(b);
}

/// Two images with the same canonical encoding have the same payload and
/// the same dimensions.
pub proof fn lemma_images_are_told_apart(
    data_a: Seq<char>,
    width_a: u32,
    height_a: u32,
    data_b: Seq<char>,
    width_b: u32,
    height_b: u32,
)
    requires
        canonical_bytes(ContentView::Image { data: data_a, width: width_a, height: height_a })
            == canonical_bytes(
            ContentView::Image { data: data_b, width: width_b, height: height_b },
        ),
    ensures
        data_a == data_b,
        width_a == width_b,
        height_a == height_b,
{
    lemma_tag_bytes();
    let tag = encode_utf8("image:"@);
    let a = tag + encode_utf8(data_a) + le_bytes(width_a) + le_bytes(height_a);
    let b = tag + encode_utf8(data_b) + le_bytes(width_b) + le_bytes(height_b);
    let n = encode_utf8(data_a).len() as int;
    assert(a.len() == 6 + n + 8);
    assert(b.len() == 6 + encode_utf8(data_b).len() + 8);
    assert(a.subrange(6, 6 + n) =~= encode_utf8(data_a));
    assert(b.subrange(6, 6 + n) =~= encode_utf8(data_b));
    encode_utf8_decode_utf8(data_a);
    encode_utf8_decode_utf8(data_b);
    assert(a.subrange(6 + n, 10 + n) =~= le_bytes(width_a));
    assert(b.subrange(6 + n, 10 + n) =~= le_bytes(width_b));
    assert(a.subrange(10 + n, 14 + n) =~= le_bytes(height_a));
    assert(b.subrange(10 + n, 14 + n) =~= le_bytes(height_b));
    lemma_le_bytes_injective(width_a, width_b);
    lemma_le_bytes_injective(height_a, height_b);
}

/// Two HTML values with the same canonical encoding have the same markup
/// and the same plain text. The markup is no longer than a string can be.
pub proof fn lemma_htmls_are_told_apart(
    html_a: Seq<char>,
    text_a: Seq<char>,
    html_b: Seq<char>,
    text_b: Seq<char>,
)
    requires
        encode_utf8(html_a).len() <= u64::MAX,
        encode_utf8(html_b).len() <= u64::MAX,
        canonical_bytes(ContentView::Html { html: html_a, text: text_a }) == canonical_bytes(
            ContentView::Html { html: html_b, text: text_b },
        ),
    ensures
        html_a == html_b,
        text_a == text_b,
{
    lemma_tag_bytes();
    let tag = encode_utf8("html:"@);
    let na = encode_utf8(html_a).len() as u64;
    let nb = encode_utf8(html_b).len() as u64;
    let a = tag + le_bytes8(na) + encode_utf8(html_a) + encode_utf8(text_a);
    let b = tag + le_bytes8(nb) + encode_utf8(html_b) + encode_utf8(text_b);
    assert(a.subrange(5, 13) =~= le_bytes8(na));
    assert(b.subrange(5, 13) =~= le_bytes8(nb));
    lemma_le_bytes8_injective(na, nb);
    let n = encode_utf8(html_a).len() as int;
    assert(n == encode_utf8(html_b).len());
    assert(a.len() == 13 + n + encode_utf8(text_a).len());
    assert(b.len() == 13 + n + encode_utf8(text_b).len());
    assert(a.subrange(13, 13 + n) =~= encode_utf8(html_a));
    assert(b.subrange(13, 13 + n) =~= encode_utf8(html_b));
    assert(a.skip(13 + n) =~= encode_utf8(text_a));
    assert(b.skip(13 + n) =~= encode_utf8(text_b));
    encode_utf8_decode_utf8(html_a);
    encode_utf8_decode_utf8(html_b);
    encode_utf8_decode_utf8(text_a);
    encode_utf8_decode_utf8(text_b);
}

/// Two numbers with the same eight little-endian bytes are the same number.
pub proof fn lemma_le_bytes8_injective(a: u64, b: u64)
    requires
        le_bytes8(a) == le_bytes8(b),
    ensures
        a == b,
{
    let low_a = (a % 4294967296) as u32;
    let low_b = (b % 4294967296) as u32;
    let high_a = (a / 4294967296) as u32;
    let high_b = (b / 4294967296) as u32;
    assert(le_bytes8(a).subrange(0, 4) =~= le_bytes(low_a));
    assert(le_bytes8(b).subrange(0, 4) =~= le_bytes(low_b));
    assert(le_bytes8(a).subrange(4, 8) =~= le_bytes(high_a));
    assert(le_bytes8(b).subrange(4, 8) =~= le_bytes(high_b));
    lemma_le_bytes_injective(low_a, low_b);
    lemma_le_bytes_injective(high_a, high_b);
}

/// Two numbers with the same little-endian bytes are the same number.
pub proof fn lemma_le_bytes_injective(a: u32, b: u32)
    requires
        le_bytes(a) == le_bytes(b),
    ensures
        a == b,
{
    assert(le_bytes(a)[0] == le_bytes(b)[0]);
    assert(le_bytes(a)[1] == le_bytes(b)[1]);
    assert(le_bytes(a)[2] == le_bytes(b)[2]);
    assert(le_bytes(a)[3] == le_bytes(b)[3]);
}

} // verus!
