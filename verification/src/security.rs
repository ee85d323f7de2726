//! Checks applied to untrusted bundle content before it is stored: content
//! type names, openable links, media paths confined to the media directory,
//! rich text that could run script when pasted, and sensitive-text
//! detection.
use vstd::prelude::*;

use crate::content::{content_type_name, content_type_of, ContentType};
use crate::text::{
    ascii_lower, chars_contain, chars_of, contains_seq, is_ws, trim_seq, trim_to_chars,
};

verus! {

pub open spec fn ascii_lower_seq(s: Seq<char>) -> Seq<char> {
    s.map_values(|c: char| ascii_lower(c))
}

/// ASCII-lowercased characters of `s` (other characters unchanged).
pub fn ascii_lower_chars(s: &Vec<char>) -> (r: Vec<char>)
    ensures
        r@ == ascii_lower_seq(s@),
{
    let mut out: Vec<char> = Vec::new();
    let mut i: usize = 0;
    while i < s.len()
        invariant
            0 <= i <= s.len(),
            out@ == ascii_lower_seq(s@.take(i as int)),
        decreases s.len() - i,
    {
        out.push(crate::text::char_ascii_lower(s[i]));
        assert(ascii_lower_seq(s@.take(i + 1)) =~= ascii_lower_seq(s@.take(i as int)).push(
            ascii_lower(s@[i as int]),
        ));
        i = i + 1;
    }
    assert(s@.take(s@.len() as int) =~= s@);
    out
}

/// Whether one of `needles` occurs in `hay`.
pub open spec fn contains_any(hay: Seq<char>, needles: Seq<&str>) -> bool {
    exists|k: int| 0 <= k < needles.len() && contains_seq(hay, (#[trigger] needles[k])@)
}

pub fn chars_contain_any(hay: &Vec<char>, needles: &[&str]) -> (r: bool)
    ensures
        r == contains_any(hay@, needles@),
{
    let mut k: usize = 0;
    while k < needles.len()
        invariant
            0 <= k <= needles.len(),
            forall|j: int| 0 <= j < k ==> !contains_seq(hay@, (#[trigger] needles@[j])@),
        decreases needles.len() - k,
    {
        let n = chars_of(needles[k]);
        if chars_contain(hay, &n) {
            return true;
        }
        k = k + 1;
    }
    false
}

/// Canonical name of a stored content type (unknown names are `text`).
pub fn normalize_content_type(s: &str) -> (r: &'static str)
    ensures
        r@ == content_type_name(content_type_of(s@)),
{
    ContentType::from_str(s).as_str()
}

pub open spec fn starts_with(s: Seq<char>, p: Seq<char>) -> bool {
    p.len() <= s.len() && s.take(p.len() as int) == p
}

/// A link that may be opened: after trimming, one `http://` or `https://`
/// URL (scheme in any case) with no whitespace inside.
pub open spec fn openable_link_spec(content: Seq<char>) -> bool {
    let t = trim_seq(content);
    let l = ascii_lower_seq(t);
    (starts_with(l, "http://"@) || starts_with(l, "https://"@)) && forall|i: int|
        0 <= i < t.len() ==> !is_ws(#[trigger] t[i])
}

fn starts_with_chars(s: &Vec<char>, p: &str) -> (r: bool)
    ensures
        r == starts_with(s@, p@),
{
    let pv = chars_of(p);
    if pv.len() > s.len() {
        return false;
    }
    let mut i: usize = 0;
    while i < pv.len()
        invariant
            0 <= i <= pv.len(),
            pv.len() <= s.len(),
            pv@ == p@,
            forall|j: int| 0 <= j < i ==> s@[j] == pv@[j],
        decreases pv.len() - i,
    {
        if s[i] != pv[i] {
            assert(s@.take(pv@.len() as int)[i as int] != p@[i as int]);
            return false;
        }
        i = i + 1;
    }
    assert(s@.take(pv@.len() as int) =~= p@);
    true
}

pub fn is_openable_link(content: &str) -> (r: bool)
    ensures
        r == openable_link_spec(content@),
{
    let t = trim_to_chars(content);
    let l = ascii_lower_chars(&t);
    if !(starts_with_chars(&l, "http://") || starts_with_chars(&l, "https://")) {
        return false;
    }
    let mut i: usize = 0;
    while i < t.len()
        invariant
            0 <= i <= t.len(),
            t@ == trim_seq(content@),
            starts_with(ascii_lower_seq(t@), "http://"@) || starts_with(
                ascii_lower_seq(t@),
                "https://"@,
            ),
            forall|j: int| 0 <= j < i ==> !is_ws(#[trigger] t@[j]),
        decreases t.len() - i,
    {
        if crate::text::char_is_ws(t[i]) {
            assert(is_ws(trim_seq(content@)[i as int]));
            return false;
        }
        i = i + 1;
    }
    true
}

/// A media path relative to the media directory: non-empty, not rooted,
/// no drive or scheme (`:`), and no `..` component.
pub open spec fn allowed_media_rel_spec(p: Seq<char>) -> bool {
    &&& p.len() > 0
    &&& p[0] != '/' && p[0] != '\\'
    &&& !p.contains(':')
    &&& !contains_seq(p, ".."@)
}

pub fn is_allowed_media_rel(p: &str) -> (r: bool)
    ensures
        r == allowed_media_rel_spec(p@),
{
    let v = chars_of(p);
    if v.len() == 0 || v[0] == '/' || v[0] == '\\' {
        return false;
    }
    let mut i: usize = 0;
    while i < v.len()
        invariant
            0 <= i <= v.len(),
            v@ == p@,
            forall|j: int| 0 <= j < i ==> v@[j] != ':',
        decreases v.len() - i,
    {
        if v[i] == ':' {
            assert(p@.contains(':'));
            return false;
        }
        i = i + 1;
    }
    let dots = chars_of("..");
    !chars_contain(&v, &dots)
}

/// Markup that can run script when rich text is pasted.
pub const UNSAFE_HTML_MARKERS: [&'static str; 6] = [
    "<script",
    "javascript:",
    "vbscript:",
    "<iframe",
    "<object",
    "<embed",
];

/// Imported rich text is kept only when it carries none of the script
/// markers (ASCII case-insensitive).
pub open spec fn safe_import_html_spec(h: Seq<char>) -> bool {
    !contains_any(ascii_lower_seq(h), UNSAFE_HTML_MARKERS@)
}

pub fn is_safe_import_html(h: &str) -> (r: bool)
    ensures
        r == safe_import_html_spec(h@),
{
    let v = chars_of(h);
    let l = ascii_lower_chars(&v);
    !chars_contain_any(&l, &UNSAFE_HTML_MARKERS)
}

/// Phrases that mark clipboard text as sensitive.
pub const SENSITIVE_MARKERS: [&'static str; 10] = [
    "password",
    "passwd",
    "密码",
    "验证码",
    "verification code",
    "api key",
    "api_key",
    "apikey",
    "secret key",
    "private key",
];

/// Text is sensitive when it mentions one of the markers (ASCII
/// case-insensitive).
pub open spec fn sensitive_spec(text: Seq<char>) -> bool {
    contains_any(ascii_lower_seq(text), SENSITIVE_MARKERS@)
}

pub fn detect_sensitive(text: &str) -> (r: bool)
    ensures
        r == sensitive_spec(text@),
{
    let v = chars_of(text);
    let l = ascii_lower_chars(&v);
    chars_contain_any(&l, &SENSITIVE_MARKERS)
}

} // verus!
