//! The capture pipeline's decisions: which captures are dropped, how text
//! and images are classified, hashed and labelled, and what is stored (with
//! auto tags) for each clipboard event. Reading the clipboard, writing media
//! files and notifying the UI happen around these calls.
use vstd::prelude::*;

use crate::capture::{ImageMeta, stored_capture};
use crate::content::{
    content_type_name, hex_lower, sha256_digest, sha256_hash, sha256_hash_bytes, sha256_hex,
    CapturedText, ContentType,
};
use crate::db::{ClipboardDb, is_run, lemma_last_run, never_runs, read_of, sent_run};
use crate::lifecycle::MediaPairs;
use crate::record::{ClipboardRecord, Settings};
use crate::security::{detect_sensitive, is_openable_link, openable_link_spec, sensitive_spec};
use crate::sqlite::{DbError, runs, Sent, SqlCell, first_int_spec, first_text_spec};
use crate::text::{eq_ignore_ascii_case, push_char, str_eq_ignore_ascii_case, trim_seq, trim_string};

use crate::query::{params_view, SqlParam, SqlValue};

use crate::records::{opt_view};

verus! {

/// Captures from an ignored application are dropped: some non-blank entry of
/// the list equals the application name, ASCII case-insensitively, once
/// both are trimmed.
pub open spec fn ignored_app_spec(app: Seq<char>, ignored: Seq<String>) -> bool {
    trim_seq(app).len() > 0 && exists|k: int|
        0 <= k < ignored.len() && trim_seq((#[trigger] ignored[k])@).len() > 0
            && eq_ignore_ascii_case(trim_seq(ignored[k]@), trim_seq(app))
}

pub fn is_ignored_app(source_app: &str, ignored_apps: &Vec<String>) -> (r: bool)
    ensures
        r == ignored_app_spec(source_app@, ignored_apps@),
{
    let app = trim_string(source_app);
    if app.as_str().is_empty() {
        return false;
    }
    let mut k: usize = 0;
    while k < ignored_apps.len()
        invariant
            0 <= k <= ignored_apps.len(),
            app@ == trim_seq(source_app@),
            app@.len() > 0,
            forall|j: int|
                0 <= j < k ==> !(trim_seq((#[trigger] ignored_apps@[j])@).len() > 0
                    && eq_ignore_ascii_case(trim_seq(ignored_apps@[j]@), trim_seq(source_app@))),
        decreases ignored_apps.len() - k,
    {
        let entry = trim_string(ignored_apps[k].as_str());
        if !entry.as_str().is_empty() && str_eq_ignore_ascii_case(entry.as_str(), app.as_str()) {
            return true;
        }
        k = k + 1;
    }
    false
}

/// Captured text is a link when it is one openable URL, otherwise text.
pub open spec fn detected_type_spec(text: Seq<char>) -> ContentType {
    if openable_link_spec(text) {
        ContentType::Link
    } else {
        ContentType::Text
    }
}

pub fn detect_content_type(text: &str) -> (r: ContentType)
    ensures
        r == detected_type_spec(text@),
{
    if is_openable_link(text) {
        ContentType::Link
    } else {
        ContentType::Text
    }
}

pub open spec fn digit_char(d: nat) -> char {
    ((('0' as int) + d) as char)
}

/// Decimal digits of `n`.
pub open spec fn decimal(n: nat) -> Seq<char>
    decreases n,
{
    if n < 10 {
        seq![digit_char(n)]
    } else {
        decimal(n / 10).push(digit_char(n % 10))
    }
}

/// Append the decimal digits of `n`.
pub fn push_decimal(s: &mut String, n: u32)
    ensures
        final(s)@ == old(s)@ + decimal(n as nat),
    decreases n,
{
    if n >= 10 {
        push_decimal(s, n / 10);
    }
    let d: u8 = (n % 10) as u8;
    push_char(s, (48u8 + d) as char);
    proof {
        if n < 10 {
            assert(old(s)@ + decimal(n as nat) =~= old(s)@.push(digit_char(n as nat)));
        } else {
            assert(old(s)@ + decimal(n as nat) =~= (old(s)@ + decimal((n / 10) as nat)).push(
                digit_char((n % 10) as nat),
            ));
        }
    }
}

/// List text of an image record: `[image WxH]`.
pub open spec fn image_label_spec(w: u32, h: u32) -> Seq<char> {
    "[image "@ + decimal(w as nat) + "x"@ + decimal(h as nat) + "]"@
}

pub fn image_label(w: u32, h: u32) -> (r: String)
    ensures
        r@ == image_label_spec(w, h),
{
    let mut s = String::new();
    s.append("[image ");
    push_decimal(&mut s, w);
    s.append("x");
    push_decimal(&mut s, h);
    s.append("]");
    s
}

/// Identity of a captured bitmap: the capture's own hash, or the SHA-256
/// of its pixels when it has none.
pub fn image_capture_hash(captured_hash: &str, rgba: &[u8]) -> (r: String)
    ensures
        captured_hash@.len() > 0 ==> r@ == captured_hash@,
        captured_hash@.len() == 0 ==> r@ == hex_lower(sha256_digest(rgba@)),
{
    if captured_hash.is_empty() {
        sha256_hash_bytes(rgba)
    } else {
        captured_hash.to_owned()
    }
}

/// Whether a fresh capture gets auto tags.
pub open spec fn auto_tags_apply(settings: Settings) -> bool {
    settings.features.tags && settings.enable_auto_tag
}

impl ClipboardDb {
    /// Store captured text: dropped (`Ok(None)`) when it comes from an
    /// ignored application; otherwise classified, checked for sensitive
    /// content when detection is on, identified by sha256 of its
    /// fingerprint, inserted or deduplicated, and auto-tagged when fresh.
    /// The media of rows evicted beyond `max_records` come back for the
    /// caller to purge.
    pub fn store_text_capture(
        &mut self,
        settings: &Settings,
        captured: &CapturedText,
        source_app: &str,
        source_window: &str,
        source_name: &str,
    ) -> (r: Result<Option<((i64, bool, ClipboardRecord), MediaPairs)>, DbError>)
        ensures
            final(self).frame(*old(self)),
            ignored_app_spec(source_app@, settings.ignored_apps@) ==> r matches Ok(None),
            r matches Ok(None) ==> ignored_app_spec(source_app@, settings.ignored_apps@),
            r matches Ok(Some(((id, fresh, rec), media))) ==> {
                &&& !ignored_app_spec(source_app@, settings.ignored_apps@)
                &&& !fresh ==> media@.len() == 0
                &&& fresh ==> rec.id == id && rec.hash@ == sha256_hex(sha256_hex(captured.text@))
                    && rec.is_sensitive == (settings.enable_sensitive_detection && sensitive_spec(
                    captured.text@,
                )) && rec.content_type@ == content_type_name(detected_type_spec(captured.text@))
                &&& stored_capture(
                    *old(self),
                    *final(self),
                    id,
                    fresh,
                    rec,
                    captured.text@,
                    detected_type_spec(captured.text@),
                    sha256_hex(sha256_hex(captured.text@)),
                    settings.enable_sensitive_detection && sensitive_spec(captured.text@),
                    settings.sensitive_auto_expire_seconds,
                    source_app@,
                    source_window@,
                    source_name@,
                    *settings,
                    None,
                    opt_view(captured.html),
                )
            },
    {
        if is_ignored_app(source_app, &settings.ignored_apps) {
            return Ok(None);
        }
        let content_type = detect_content_type(captured.text.as_str());
        let is_sensitive = settings.enable_sensitive_detection && detect_sensitive(
            captured.text.as_str(),
        );
        let fp = captured.fingerprint();
        let hash = sha256_hash(fp.as_str());
        let html_arg: Option<&str> = match &captured.html {
            Some(h) => Some(h.as_str()),
            None => None,
        };
        let (stored, media) = self.insert_record_evicting(
            captured.text.as_str(),
            &content_type,
            hash.as_str(),
            is_sensitive,
            settings.max_records,
            settings.sensitive_auto_expire_seconds,
            source_app,
            source_window,
            source_name,
            settings,
            None,
            html_arg,
        )?;
        proof {
            assert(opt_view(captured.html) == crate::capture::html_view(html_arg));
        }
        Ok(Some((stored, media)))
    }

    /// Store a captured image whose files are already written (`meta`):
    /// dropped (`Ok(None)`) for an ignored application; otherwise inserted
    /// or deduplicated as `[image WxH]`, never sensitive, and auto-tagged
    /// when fresh. On `Err` the caller removes files it just created. The
    /// media of rows evicted beyond `max_records` come back for the caller
    /// to purge.
    pub fn store_image_capture(
        &mut self,
        settings: &Settings,
        hash: &str,
        meta: &ImageMeta,
        source_app: &str,
        source_window: &str,
        source_name: &str,
    ) -> (r: Result<Option<((i64, bool, ClipboardRecord), MediaPairs)>, DbError>)
        requires
            meta.width >= 0 && meta.height >= 0,
        ensures
            final(self).frame(*old(self)),
            ignored_app_spec(source_app@, settings.ignored_apps@) ==> r matches Ok(None),
            r matches Ok(None) ==> ignored_app_spec(source_app@, settings.ignored_apps@),
            r matches Ok(Some(((id, fresh, rec), media))) ==> {
                &&& !ignored_app_spec(source_app@, settings.ignored_apps@)
                &&& !fresh ==> media@.len() == 0
                &&& fresh ==> rec.id == id && rec.hash@ == hash@ && !rec.is_sensitive
                    && rec.content_type@ == "image"@
                &&& stored_capture(
                    *old(self),
                    *final(self),
                    id,
                    fresh,
                    rec,
                    image_label_spec(meta.width as u32, meta.height as u32),
                    ContentType::Image,
                    hash@,
                    false,
                    settings.sensitive_auto_expire_seconds,
                    source_app@,
                    source_window@,
                    source_name@,
                    *settings,
                    Some(*meta),
                    None,
                )
            },
    {
        if is_ignored_app(source_app, &settings.ignored_apps) {
            return Ok(None);
        }
        let label = image_label(meta.width as u32, meta.height as u32);
        let (stored, media) = self.insert_record_evicting(
            label.as_str(),
            &ContentType::Image,
            hash,
            false,
            settings.max_records,
            settings.sensitive_auto_expire_seconds,
            source_app,
            source_window,
            source_name,
            settings,
            Some(meta),
            None,
        )?;
        Ok(Some((stored, media)))
    }
}

} // verus!
