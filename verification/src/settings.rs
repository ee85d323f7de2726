//! Persisting the app settings: the stored JSON blob, how each secret is
//! kept at rest, and the guard that refuses to overwrite a stored blob that
//! was never read successfully; and applying the launch-at-login setting.
//! Encoding the settings as JSON, the operating system's secret encryption
//! and its autostart entry are handled by the caller.
use vstd::prelude::*;

use crate::db::{ClipboardDb, is_run, lemma_last_run, never_runs, read_of, sent_run};
use crate::query::{SqlParam, params_view, SqlValue};
use crate::sqlite::{exec, query_text, DbError, runs, Sent, SqlCell, first_int_spec, first_text_spec};
use crate::security::{ascii_lower_chars, ascii_lower_seq};
use crate::text::{chars_contain, chars_of, contains_seq, str_eq};

use crate::records::{opt_view};

verus! {

/// Why saving the settings failed.
#[derive(Debug, Clone, PartialEq, Eq)]
pub enum SettingsError {
    Serialize(String),
    Sql(String),
    Encryption(String),
    CorruptStoredBlob,
}

/// The message of a settings error.
pub open spec fn settings_error_text(e: SettingsError) -> Seq<char> {
    match e {
        SettingsError::Serialize(m) => "settings serialize failed: "@ + m@,
        SettingsError::Sql(m) => "settings save failed: "@ + m@,
        SettingsError::Encryption(m) => "settings encryption failed: "@ + m@,
        SettingsError::CorruptStoredBlob => "stored settings blob is corrupt; refusing to overwrite it"@,
    }
}

impl SettingsError {
    /// The error's message.
    pub fn message(&self) -> (r: String)
        ensures
            r@ == settings_error_text(*self),
    {
        match self {
            SettingsError::Serialize(m) => {
                let mut s = "settings serialize failed: ".to_owned();
                s.append(m.as_str());
                s
            },
            SettingsError::Sql(m) => {
                let mut s = "settings save failed: ".to_owned();
                s.append(m.as_str());
                s
            },
            SettingsError::Encryption(m) => {
                let mut s = "settings encryption failed: ".to_owned();
                s.append(m.as_str());
                s
            },
            SettingsError::CorruptStoredBlob => {
                "stored settings blob is corrupt; refusing to overwrite it".to_owned()
            },
        }
    }
}

/// How one secret is kept at rest.
#[derive(Debug, Clone, PartialEq, Eq)]
pub enum StoredSecret {
    /// The secret was cleared: store the empty string.
    Clear,
    /// Unchanged since it was loaded: store the same ciphertext again.
    Reuse(String),
    /// New or changed (or stored in the clear before): encrypt it.
    Encrypt,
}

/// Whether the secret is unchanged since it was loaded from its stored
/// ciphertext.
pub open spec fn secret_unchanged(plaintext: Seq<char>, cached_plain: Seq<char>, cached_raw: Seq<
    char,
>) -> bool {
    cached_plain.len() > 0 && cached_plain == plaintext && cached_raw.len() > 0
}

/// How to store `plaintext`, given the plaintext and ciphertext of the
/// secret as it was last loaded: an empty plaintext clears it; the loaded
/// ciphertext is kept when the plaintext is unchanged; anything else is
/// encrypted anew, which also upgrades a secret stored in the clear.
pub fn resolve_stored_secret(plaintext: &str, cached_plain: &str, cached_raw: &str) -> (r:
    StoredSecret)
    ensures
        plaintext@.len() == 0 ==> r is Clear,
        plaintext@.len() > 0 && secret_unchanged(plaintext@, cached_plain@, cached_raw@) ==> (r matches StoredSecret::Reuse(raw) && raw@ == cached_raw@),
        plaintext@.len() > 0 && !secret_unchanged(plaintext@, cached_plain@, cached_raw@) ==> r is Encrypt,
{
    if plaintext.is_empty() {
        return StoredSecret::Clear;
    }
    if !cached_plain.is_empty() && str_eq(cached_plain, plaintext) && !cached_raw.is_empty() {
        return StoredSecret::Reuse(cached_raw.to_owned());
    }
    StoredSecret::Encrypt
}

/// What the secrets cache remembers after a save: the plaintext and the
/// stored form, or two empty strings when the stored form is empty.
pub fn remembered_secret(plaintext: &str, stored: &str) -> (r: (String, String))
    ensures
        stored@.len() == 0 ==> r.0@.len() == 0,
        stored@.len() > 0 ==> r.0@ == plaintext@,
        r.1@ == stored@,
{
    if stored.is_empty() {
        (String::new(), stored.to_owned())
    } else {
        (plaintext.to_owned(), stored.to_owned())
    }
}

/// A save may overwrite the stored blob when the settings were loaded
/// before, or when no blob is stored, or when the stored blob still parses
/// (`stored_parses` is `None` when nothing is stored).
pub fn check_overwrite(loaded_before: bool, stored_parses: Option<bool>) -> (r: Result<(), SettingsError>)
    ensures
        r is Err <==> (!loaded_before && stored_parses == Some(false)),
        r matches Err(e) ==> e is CorruptStoredBlob,
{
    if !loaded_before {
        if let Some(false) = stored_parses {
            return Err(SettingsError::CorruptStoredBlob);
        }
    }
    Ok(())
}

/// Key of the settings row.
pub const SETTINGS_KEY: &'static str = "app_settings";

/// Store settings value `?2` under key `?1`, replacing the previous one.
pub const SETTING_WRITE_SQL: &'static str = "INSERT OR REPLACE INTO settings (key, value) VALUES (?, ?)";

impl ClipboardDb {
    /// The stored settings JSON, if any.
    pub fn read_settings_json(&mut self) -> (r: Result<Option<String>, DbError>)
        ensures
            final(self).frame(*old(self)),
            r matches Ok(v) ==> exists|rows: Seq<Vec<SqlCell>>|
                final(self).log() == old(self).log().push(
                    #[trigger] read_of(
                        crate::tombstones::SETTING_VALUE_SQL@,
                        seq![SqlValue::Text(SETTINGS_KEY@)],
                        rows,
                    ),
                ) && opt_view(v) == first_text_spec(rows),
    {
        let p = crate::tagdb::text_params(SETTINGS_KEY);
        self.query_text(crate::tombstones::SETTING_VALUE_SQL, &p)
    }

    /// Store `json` as the settings blob, replacing the previous one.
    pub fn write_settings_json(&mut self, json: &str) -> (r: Result<(), SettingsError>)
        ensures
            final(self).frame(*old(self)),
            r is Ok ==> runs(
                final(self).sent_since(*old(self)),
                seq![(SETTING_WRITE_SQL@, seq![SqlValue::Text(SETTINGS_KEY@), SqlValue::Text(json@)])],
            ),
    {
        match self.exec(SETTING_WRITE_SQL, &crate::tagdb::text_text_params(SETTINGS_KEY, json)) {
            Ok(_) => {
                assert(self.sent_since(*old(self)) =~= seq![self.log().last()]);
                Ok(())
            },
            Err(e) => Err(SettingsError::Sql(crate::enrich::db_error_text(&e))),
        }
    }
}

/// Whether an error from removing the autostart entry says that the entry
/// is already gone (Windows' "file not found", in English or Chinese, or
/// any "not found").
pub open spec fn autostart_cleared_spec(msg: Seq<char>) -> bool {
    contains_seq(msg, "os error 2"@) || contains_seq(msg, "找不到指定的文件"@) || contains_seq(
        ascii_lower_seq(msg),
        "not found"@,
    )
}

/// Executable [`autostart_cleared_spec`].
pub fn is_autostart_already_cleared(msg: &str) -> (r: bool)
    ensures
        r == autostart_cleared_spec(msg@),
{
    let hay = chars_of(msg);
    let a = chars_of("os error 2");
    let b = chars_of("找不到指定的文件");
    let c = chars_of("not found");
    if chars_contain(&hay, &a) {
        return true;
    }
    if chars_contain(&hay, &b) {
        return true;
    }
    let lower = ascii_lower_chars(&hay);
    chars_contain(&lower, &c)
}

/// Whether the autostart entry must be changed: not when the operating
/// system already reports the wanted state (a failed read means "change").
pub fn autostart_needs_change(enabled: bool, current: Option<bool>) -> (r: bool)
    ensures
        r == (current != Some(enabled)),
{
    match current {
        Some(c) => c != enabled,
        None => true,
    }
}

/// The message of a failed autostart change.
pub open spec fn autostart_error_text(enabled: bool, err: Seq<char>) -> Seq<char> {
    "Failed to "@ + (if enabled {
        "enable"@
    } else {
        "disable"@
    }) + " autostart: "@ + err
}

/// The result of an autostart change given the error it raised, if any:
/// success, also when disabling fails because the entry is already gone;
/// otherwise the error, explained.
pub fn autostart_outcome(enabled: bool, error: Option<&str>) -> (r: Result<(), String>)
    ensures
        error is None ==> r is Ok,
        error matches Some(e) ==> (!enabled && autostart_cleared_spec(e@) ==> r is Ok),
        error matches Some(e) ==> (!(!enabled && autostart_cleared_spec(e@)) ==> (r matches Err(m)
            && m@ == autostart_error_text(enabled, e@))),
{
    match error {
        None => Ok(()),
        Some(e) => {
            if !enabled && is_autostart_already_cleared(e) {
                return Ok(());
            }
            let mut m = "Failed to ".to_owned();
            if enabled {
                m.append("enable");
            } else {
                m.append("disable");
            }
            m.append(" autostart: ");
            m.append(e);
            Err(m)
        },
    }
}

} // verus!
