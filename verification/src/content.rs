//! Captured clipboard payloads and the text classification that decides
//! between a co-existing bitmap and text.
use vstd::prelude::*;
use vstd::utf8::encode_utf8;

use crate::text::{
    chars_occur_at, chars_of, is_ws, lowercase, occurs_at, push_char, str_eq, to_lowercase,
    trim_chars, trim_seq, trim_to_chars,
};

verus! {

/// Kind of a clipboard record.
#[derive(Debug, Clone, Copy, PartialEq, Eq, Structural)]
pub enum ContentType {
    Text,
    Code,
    Link,
    Image,
    File,
}

pub open spec fn content_type_name(t: ContentType) -> Seq<char> {
    match t {
        ContentType::Text => "text"@,
        ContentType::Code => "code"@,
        ContentType::Link => "link"@,
        ContentType::Image => "image"@,
        ContentType::File => "file"@,
    }
}

/// Parse a stored type name; unknown names are text.
pub open spec fn content_type_of(s: Seq<char>) -> ContentType {
    if s == "text"@ {
        ContentType::Text
    } else if s == "code"@ {
        ContentType::Code
    } else if s == "link"@ {
        ContentType::Link
    } else if s == "image"@ {
        ContentType::Image
    } else if s == "file"@ {
        ContentType::File
    } else {
        ContentType::Text
    }
}

impl ContentType {
    pub fn as_str(&self) -> (r: &'static str)
        ensures
            r@ == content_type_name(*self),
    {
        match self {
            ContentType::Text => "text",
            ContentType::Code => "code",
            ContentType::Link => "link",
            ContentType::Image => "image",
            ContentType::File => "file",
        }
    }

    pub fn from_str(s: &str) -> (r: Self)
        ensures
            r == content_type_of(s@),
    {
        if str_eq(s, "text") {
            ContentType::Text
        } else if str_eq(s, "code") {
            ContentType::Code
        } else if str_eq(s, "link") {
            ContentType::Link
        } else if str_eq(s, "image") {
            ContentType::Image
        } else if str_eq(s, "file") {
            ContentType::File
        } else {
            ContentType::Text
        }
    }
}

/// A type's stored name parses back to the same type.
pub proof fn lemma_content_type_round_trip(t: ContentType)
    ensures
        content_type_of(content_type_name(t)) == t,
{
    reveal_strlit("text");
    reveal_strlit("code");
    reveal_strlit("link");
    reveal_strlit("image");
    reveal_strlit("file");
    assert("text"@[0] == 't' && "code"@[0] == 'c' && "link"@[0] == 'l' && "image"@[0] == 'i'
        && "file"@[0] == 'f');
}

// ---------------------------------------------------------------------------
// Links
// ---------------------------------------------------------------------------

/// URL schemes recognised as the start of a link: web URLs and the download
/// protocols (`magnet:` / `ed2k://` / `thunder://` / `ftp://`).
pub const LINK_PREFIXES: [&'static str; 6] = [
    "http://",
    "https://",
    "ftp://",
    "magnet:",
    "ed2k://",
    "thunder://",
];

pub open spec fn link_prefixes() -> Seq<Seq<char>> {
    seq!["http://"@, "https://"@, "ftp://"@, "magnet:"@, "ed2k://"@, "thunder://"@]
}

fn link_prefix_chars() -> (r: Vec<Vec<char>>)
    ensures
        r@.len() == 6,
        forall|k: int| 0 <= k < 6 ==> (#[trigger] r@[k])@ == link_prefixes()[k],
{
    let mut r: Vec<Vec<char>> = Vec::new();
    r.push(chars_of("http://"));
    r.push(chars_of("https://"));
    r.push(chars_of("ftp://"));
    r.push(chars_of("magnet:"));
    r.push(chars_of("ed2k://"));
    r.push(chars_of("thunder://"));
    r
}

/// Some link prefix starts at index `i` of `s`.
pub open spec fn link_at(s: Seq<char>, i: int) -> bool {
    exists|k: int| 0 <= k < 6 && #[trigger] occurs_at(s, link_prefixes()[k], i)
}

/// First index `>= i` where a link prefix starts.
pub open spec fn first_link_from(s: Seq<char>, i: int) -> Option<int>
    decreases s.len() + 1 - i,
{
    if i < 0 || i > s.len() {
        None
    } else if link_at(s, i) {
        Some(i)
    } else {
        first_link_from(s, i + 1)
    }
}

/// First index `>= i` holding whitespace (or `s.len()`).
pub open spec fn first_ws_from(s: Seq<char>, i: int) -> int
    decreases s.len() - i,
{
    if i < 0 || i >= s.len() {
        s.len() as int
    } else if is_ws(s[i]) {
        i
    } else {
        first_ws_from(s, i + 1)
    }
}

/// On already-lowercased text: a link is present and at most 8 characters of
/// other text (after trimming) stand before it and after its first
/// whitespace-delimited token.
pub open spec fn primarily_url_lower(lower: Seq<char>) -> bool {
    match first_link_from(lower, 0) {
        None => false,
        Some(start) => {
            let before = trim_seq(lower.take(start));
            let after = trim_seq(lower.skip(first_ws_from(lower, start)));
            before.len() <= 8 && after.len() <= 8
        },
    }
}

fn link_at_exec(s: &Vec<char>, prefixes: &Vec<Vec<char>>, i: usize) -> (r: bool)
    requires
        prefixes@.len() == 6,
        forall|k: int| 0 <= k < 6 ==> (#[trigger] prefixes@[k])@ == link_prefixes()[k],
    ensures
        r == link_at(s@, i as int),
{
    let mut k: usize = 0;
    while k < 6
        invariant
            k <= 6,
            prefixes@.len() == 6,
            forall|m: int| 0 <= m < 6 ==> (#[trigger] prefixes@[m])@ == link_prefixes()[m],
            forall|m: int| 0 <= m < k ==> !occurs_at(s@, link_prefixes()[m], i as int),
        decreases 6 - k,
    {
        if chars_occur_at(s, &prefixes[k], i) {
            assert(occurs_at(s@, link_prefixes()[k as int], i as int));
            return true;
        }
        k = k + 1;
    }
    false
}

fn first_link_exec(s: &Vec<char>) -> (r: Option<usize>)
    ensures
        match r {
            Some(i) => first_link_from(s@, 0) == Some(i as int) && i <= s@.len(),
            None => first_link_from(s@, 0) is None,
        },
{
    let prefixes = link_prefix_chars();
    let mut i: usize = 0;
    while i < s.len()
        invariant
            i <= s.len(),
            prefixes@.len() == 6,
            forall|m: int| 0 <= m < 6 ==> (#[trigger] prefixes@[m])@ == link_prefixes()[m],
            first_link_from(s@, 0) == first_link_from(s@, i as int),
        decreases s.len() - i,
    {
        if link_at_exec(s, &prefixes, i) {
            return Some(i);
        }
        i = i + 1;
    }
    if link_at_exec(s, &prefixes, i) {
        return Some(i);
    }
    assert(first_link_from(s@, i + 1) is None);
    None
}

fn first_ws_exec(s: &Vec<char>, from: usize) -> (r: usize)
    requires
        from <= s.len(),
    ensures
        r as int == first_ws_from(s@, from as int),
        from <= r <= s.len(),
{
    let mut i: usize = from;
    while i < s.len() && !crate::text::char_is_ws(s[i])
        invariant
            from <= i <= s.len(),
            first_ws_from(s@, from as int) == first_ws_from(s@, i as int),
        decreases s.len() - i,
    {
        i = i + 1;
    }
    i
}

/// The characters `v[a..b]`.
pub fn slice_chars(v: &Vec<char>, a: usize, b: usize) -> (r: Vec<char>)
    requires
        a <= b <= v.len(),
    ensures
        r@ == v@.subrange(a as int, b as int),
{
    let mut r: Vec<char> = Vec::new();
    let mut i: usize = a;
    while i < b
        invariant
            a <= i <= b,
            b <= v.len(),
            r@ == v@.subrange(a as int, i as int),
        decreases b - i,
    {
        r.push(v[i]);
        i = i + 1;
        assert(r@ =~= v@.subrange(a as int, i as int));
    }
    r
}

/// [`is_primarily_url`] on text that is already lowercased.
pub fn is_primarily_url_lower(lower: &str) -> (r: bool)
    ensures
        r == primarily_url_lower(lower@),
{
    let s = chars_of(lower);
    match first_link_exec(&s) {
        None => false,
        Some(start) => {
            let before_raw = slice_chars(&s, 0, start);
            let before = trim_chars(&before_raw);
            let e = first_ws_exec(&s, start);
            let after_raw = slice_chars(&s, e, s.len());
            let after = trim_chars(&after_raw);
            assert(before_raw@ =~= s@.take(start as int));
            assert(after_raw@ =~= s@.skip(e as int));
            before.len() <= 8 && after.len() <= 8
        },
    }
}

/// True when the payload is essentially one URL with negligible other text.
/// Matching is case-insensitive (decided on the lowercased text).
pub fn is_primarily_url(t: &str) -> (r: bool)
    ensures
        r == primarily_url_lower(lowercase(t@)),
{
    let lower = to_lowercase(t);
    is_primarily_url_lower(lower.as_str())
}

/// Share text that should win over a co-existing bitmap: non-blank, not
/// essentially a URL, and at least 16 characters once trimmed.
pub open spec fn meaningful_share_text(text: Seq<char>) -> bool {
    let t = trim_seq(text);
    t.len() > 0 && !primarily_url_lower(lowercase(t)) && t.len() >= 16
}

/// Prefer text over a co-existing bitmap only for real share/snippets.
pub fn is_meaningful_share_text(text: &str) -> (r: bool)
    ensures
        r == meaningful_share_text(text@),
{
    let t = trim_to_chars(text);
    if t.len() == 0 {
        return false;
    }
    let ts = crate::text::string_of(&t);
    if is_primarily_url(ts.as_str()) {
        return false;
    }
    t.len() >= 16
}


proof fn lemma_first_link_is(s: Seq<char>, i: int, start: int)
    requires
        0 <= i <= start <= s.len(),
        link_at(s, start),
        forall|j: int| i <= j < start ==> !link_at(s, j),
    ensures
        first_link_from(s, i) == Some(start),
    decreases start - i,
{
    if i < start {
        lemma_first_link_is(s, i + 1, start);
    }
}

proof fn lemma_first_ws_is(s: Seq<char>, i: int, e: int)
    requires
        0 <= i <= e <= s.len(),
        e < s.len() ==> is_ws(s[e]),
        forall|j: int| i <= j < e ==> !is_ws(#[trigger] s[j]),
    ensures
        first_ws_from(s, i) == e,
    decreases e - i,
{
    if i < e {
        lemma_first_ws_is(s, i + 1, e);
    }
}

/// Where the first link prefix of (lowercased) text starts at `start` and
/// its token runs up to the first whitespace at `e` (or the end), the text
/// is primarily a URL exactly when at most 8 characters of trimmed text
/// stand before `start` and at most 8 after `e`; in particular a caption of
/// more than 8 characters after the link makes it not a URL.
pub proof fn lemma_url_token_with_caption(lower: Seq<char>, start: int, e: int)
    requires
        0 <= start <= e <= lower.len(),
        link_at(lower, start),
        forall|i: int| 0 <= i < start ==> !link_at(lower, i),
        forall|j: int| start <= j < e ==> !is_ws(#[trigger] lower[j]),
        e < lower.len() ==> is_ws(lower[e]),
    ensures
        primarily_url_lower(lower) <==> (trim_seq(lower.take(start)).len() <= 8 && trim_seq(
            lower.skip(e),
        ).len() <= 8),
        trim_seq(lower.skip(e)).len() > 8 ==> !primarily_url_lower(lower),
{
    lemma_first_link_is(lower, 0, start);
    lemma_first_ws_is(lower, start, e);
}

/// Share text of 16 or more trimmed characters whose first link is followed
/// by a caption of more than 8 characters (after the link's first
/// whitespace, trimmed) is meaningful share text, so it wins over a
/// co-existing bitmap.
pub proof fn lemma_captioned_link_is_meaningful_share(text: Seq<char>, start: int, e: int)
    requires
        trim_seq(text).len() >= 16,
        0 <= start <= e <= lowercase(trim_seq(text)).len(),
        link_at(lowercase(trim_seq(text)), start),
        forall|i: int| 0 <= i < start ==> !link_at(lowercase(trim_seq(text)), i),
        forall|j: int| start <= j < e ==> !is_ws(#[trigger] lowercase(trim_seq(text))[j]),
        e < lowercase(trim_seq(text)).len() ==> is_ws(lowercase(trim_seq(text))[e]),
        trim_seq(lowercase(trim_seq(text)).skip(e)).len() > 8,
    ensures
        meaningful_share_text(text),
{
    lemma_url_token_with_caption(lowercase(trim_seq(text)), start, e);
}

// ---------------------------------------------------------------------------
// Hashing
// ---------------------------------------------------------------------------

/// What `sha2::Sha256::digest` returns for the bytes `b`.
pub uninterp spec fn sha256_digest(b: Seq<u8>) -> Seq<u8>;

/// SHA-256 digest of the UTF-8 encoding of the text `s`.
pub open spec fn sha256_utf8(s: Seq<char>) -> Seq<u8> {
    sha256_digest(encode_utf8(s))
}

/// `sha2::Sha256::digest` of `b`. The contract names the digest as a
/// function of the bytes and states only its documented length (32 bytes);
/// the digest function itself is not restated.
#[verifier::external_body]
fn sha256_of_bytes(b: &[u8]) -> (r: Vec<u8>)
    ensures
        r@ == sha256_digest(b@),
        r@.len() == 32,
{
    <sha2::Sha256 as sha2::Digest>::digest(b).to_vec()
}

pub open spec fn hex_digit_char(n: int) -> char {
    if n < 10 {
        (('0' as int) + n) as char
    } else {
        (('a' as int) + n - 10) as char
    }
}

/// Lowercase hex encoding, two digits per byte (what `hex::encode` gives).
pub open spec fn hex_lower(bytes: Seq<u8>) -> Seq<char>
    decreases bytes.len(),
{
    if bytes.len() == 0 {
        Seq::empty()
    } else {
        hex_lower(bytes.drop_last()) + seq![
            hex_digit_char(bytes.last() as int / 16),
            hex_digit_char(bytes.last() as int % 16),
        ]
    }
}

fn hex_digit_exec(n: u8) -> (c: char)
    requires
        n < 16,
    ensures
        c == hex_digit_char(n as int),
{
    if n < 10 {
        (48u8 + n) as char
    } else {
        (87u8 + n) as char
    }
}

/// Lowercase hex encoding of `bytes`.
pub fn hex_encode(bytes: &Vec<u8>) -> (s: String)
    ensures
        s@ == hex_lower(bytes@),
{
    let mut s = String::new();
    let mut i: usize = 0;
    while i < bytes.len()
        invariant
            i <= bytes.len(),
            s@ == hex_lower(bytes@.take(i as int)),
        decreases bytes.len() - i,
    {
        let b = bytes[i];
        push_char(&mut s, hex_digit_exec(b / 16));
        push_char(&mut s, hex_digit_exec(b % 16));
        assert(bytes@.take(i + 1).drop_last() =~= bytes@.take(i as int));
        i = i + 1;
        assert(s@ =~= hex_lower(bytes@.take(i as int)));
    }
    assert(bytes@.take(bytes.len() as int) =~= bytes@);
    s
}

/// Lowercase hex SHA-256 of the text.
pub open spec fn sha256_hex(s: Seq<char>) -> Seq<char> {
    hex_lower(sha256_utf8(s))
}

/// Lowercase hex SHA-256 of the UTF-8 text `s`.
pub fn sha256_hash(s: &str) -> (r: String)
    ensures
        r@ == sha256_hex(s@),
{
    let d = sha256_of_bytes(s.as_bytes());
    hex_encode(&d)
}

/// Lowercase hex SHA-256 of raw bytes (image pixels).
pub fn sha256_hash_bytes(b: &[u8]) -> (r: String)
    ensures
        r@ == hex_lower(sha256_digest(b@)),
{
    let d = sha256_of_bytes(b);
    hex_encode(&d)
}

// ---------------------------------------------------------------------------
// Captured payloads
// ---------------------------------------------------------------------------

/// A bitmap read from the clipboard (RGBA, row-major).
#[derive(Debug, Clone)]
pub struct CapturedImage {
    pub rgba: Vec<u8>,
    pub width: u32,
    pub height: u32,
    pub hash: String,
}

/// Text read from the clipboard, with the CF_HTML fragment when present.
#[derive(Debug, Clone)]
pub struct CapturedText {
    pub text: String,
    pub html: Option<String>,
}

impl CapturedText {
    /// Fingerprint for change detection: the plain text only. HTML is payload,
    /// not identity (different apps emit different fragments for one text).
    pub fn fingerprint(&self) -> (r: String)
        ensures
            r@ == sha256_hex(self.text@),
    {
        sha256_hash(self.text.as_str())
    }
}

/// What one clipboard change produced.
#[derive(Debug, Clone)]
pub enum ClipboardEvent {
    Text(CapturedText),
    Image(CapturedImage),
}

/// Two captures with the same text have the same fingerprint, whatever
/// their HTML fragments.
pub proof fn lemma_fingerprint_ignores_html(a: CapturedText, b: CapturedText)
    requires
        a.text@ == b.text@,
    ensures
        sha256_hex(a.text@) == sha256_hex(b.text@),
{
}

/// Stored identity of a text record: the SHA-256 of its fingerprint.
pub fn text_record_hash(content: &str) -> (r: String)
    ensures
        r@ == sha256_hex(sha256_hex(content@)),
{
    let fp = sha256_hash(content);
    sha256_hash(fp.as_str())
}

} // verus!
