//! Applying AI enrichment to stored records: reading the model's JSON
//! reply, the background worker's gate and write rules, and the on-demand
//! (user-clicked) summary / tags actions.
use vstd::prelude::*;

use crate::ai::{ai_eligible_spec, ai_eligible_type, sanitized_summary, AiConfig, AiEnrichMode, AiResult};
use crate::bundle::{snapshot_names, snapshot_names_upto, strings_view};
use crate::db::{ClipboardDb, is_run, lemma_last_run, never_runs, read_of, sent_run};
use crate::query::{SqlParam, params_view, SqlValue};
use crate::record::{ClipboardRecord, Settings};
use crate::sqlite::{exec, DbError, runs, Sent, SqlCell, first_int_spec, first_text_spec};
use crate::text::{chars_of, string_of, trim_seq, trim_string, trim_to_chars};

use crate::records::{opt_view};

verus! {

/// Whether `s` is the text of a JSON object, as serde_json reads it.
pub uninterp spec fn json_object_text(s: Seq<char>) -> bool;

/// `serde_json::from_str::<serde_json::Value>` followed by
/// `serde_json::Value::is_object`: true exactly when `s` parses as JSON and
/// the value is an object. What serde_json accepts is left to the name.
#[verifier::external_body]
fn is_json_object_text(s: &str) -> (r: bool)
    ensures
        r == json_object_text(s@),
{
    serde_json::from_str::<serde_json::Value>(s).map(|v| v.is_object()).unwrap_or(false)
}

/// The span from the first `{` to the last `}` (inclusive), when the last
/// comes after the first.
pub open spec fn brace_span_spec(t: Seq<char>) -> Option<Seq<char>> {
    if exists|i: int| 0 <= i < t.len() && t[i] == '{' {
        let s = choose|i: int| 0 <= i < t.len() && t[i] == '{' && forall|j: int| 0 <= j < i ==> t[j] != '{';
        if exists|i: int| 0 <= i < t.len() && t[i] == '}' {
            let e = choose|i: int|
                0 <= i < t.len() && t[i] == '}' && forall|j: int| i < j < t.len() ==> t[j] != '}';
            if e <= s {
                None
            } else {
                Some(t.subrange(s, e + 1))
            }
        } else {
            None
        }
    } else {
        None
    }
}

/// The `{ ... }` span of `t`.
pub fn brace_span(t: &str) -> (r: Option<String>)
    ensures
        match r {
            Some(s) => brace_span_spec(t@) == Some(s@),
            None => brace_span_spec(t@) is None,
        },
{
    let v = chars_of(t);
    let mut i: usize = 0;
    while i < v.len() && v[i] != '{'
        invariant
            0 <= i <= v.len(),
            v@ == t@,
            forall|j: int| 0 <= j < i ==> v@[j] != '{',
        decreases v.len() - i,
    {
        i = i + 1;
    }
    if i == v.len() {
        return None;
    }
    let start = i;
    let mut k: usize = v.len();
    while k > 0 && v[k - 1] != '}'
        invariant
            0 <= k <= v.len(),
            v@ == t@,
            start < v.len(),
            v@[start as int] == '{',
            forall|j: int| 0 <= j < start ==> v@[j] != '{',
            forall|j: int| k <= j < v.len() ==> v@[j] != '}',
        decreases k,
    {
        k = k - 1;
    }
    proof {
        let s = choose|x: int| 0 <= x < t@.len() && t@[x] == '{' && forall|j: int| 0 <= j < x ==> t@[j] != '{';
        assert(0 <= start < t@.len() && t@[start as int] == '{' && forall|j: int|
            0 <= j < start ==> t@[j] != '{');
        if s < start {
            assert(t@[s] != '{');
        }
        if start < s {
            assert(t@[start as int] != '{');
        }
    }
    if k == 0 {
        return None;
    }
    let end = k - 1;
    proof {
        let e = choose|x: int|
            0 <= x < t@.len() && t@[x] == '}' && forall|j: int| x < j < t@.len() ==> t@[j] != '}';
        assert(0 <= end < t@.len() && t@[end as int] == '}' && forall|j: int|
            end < j < t@.len() ==> t@[j] != '}');
        if e < end {
            assert(t@[end as int] != '}');
        }
        if end < e {
            assert(t@[e] != '}');
        }
    }
    if end <= start {
        return None;
    }
    let mut out: Vec<char> = Vec::new();
    let mut j: usize = start;
    while j <= end
        invariant
            start <= j <= end + 1,
            end < v.len(),
            out@ == v@.subrange(start as int, j as int),
        decreases end + 1 - j,
    {
        out.push(v[j]);
        j = j + 1;
    }
    Some(string_of(&out))
}

/// Which text of a model reply holds the JSON object: the whole trimmed
/// reply when that is a JSON object, else its `{ ... }` span when that is
/// one, else none.
pub open spec fn json_object_choice(trimmed: Seq<char>, whole_ok: bool, span_ok: bool) -> Option<
    Seq<char>,
> {
    if whole_ok {
        Some(trimmed)
    } else {
        match brace_span_spec(trimmed) {
            Some(span) => if span_ok {
                Some(span)
            } else {
                None
            },
            None => None,
        }
    }
}

/// The text of the JSON object in a model reply; tolerates a Markdown fence
/// or prose around the object. The caller decodes the returned text.
pub fn extract_json_object(text: &str) -> (r: Option<String>)
    ensures
        ({
            let t = trim_seq(text@);
            let span_ok = match brace_span_spec(t) {
                Some(span) => json_object_text(span),
                None => false,
            };
            json_object_choice(t, json_object_text(t), span_ok) == match r {
                Some(x) => Some(x@),
                None => None,
            }
        }),
{
    let trimmed = trim_string(text);
    if is_json_object_text(trimmed.as_str()) {
        return Some(trimmed);
    }
    let span = brace_span(trimmed.as_str())?;
    if is_json_object_text(span.as_str()) {
        Some(span)
    } else {
        None
    }
}

/// What an on-demand enrichment changed.
#[derive(Debug, Clone, PartialEq, Eq)]
pub struct AiEnrichOutcome {
    pub alias: Option<String>,
    pub tags: Option<Vec<String>>,
}

/// The background worker calls the model only while AI is on and the
/// record still exists, is neither sensitive nor in the trash.
pub open spec fn ai_job_allowed_spec(settings: Settings, record: Option<ClipboardRecord>) -> bool {
    settings.features.ai && settings.enable_ai && match record {
        Some(r) => !r.is_sensitive && !r.is_trashed,
        None => false,
    }
}

pub fn ai_job_allowed(settings: &Settings, record: Option<&ClipboardRecord>) -> (r: bool)
    ensures
        r == ai_job_allowed_spec(
            *settings,
            match record {
                Some(x) => Some(*x),
                None => None,
            },
        ),
{
    if !settings.features.ai || !settings.enable_ai {
        return false;
    }
    match record {
        Some(r) => !r.is_sensitive && !r.is_trashed,
        None => false,
    }
}

/// A fresh capture is handed to the background model when AI is on and
/// configured, asked to do something (summary or tags), and the record is
/// a plain, non-sensitive text / code / link of at least `ai_min_chars`
/// characters.
pub open spec fn ai_enqueue_spec(settings: Settings, record: ClipboardRecord, fresh: bool) -> bool {
    &&& fresh
    &&& settings.features.ai && settings.enable_ai
    &&& trim_seq(settings.ai_base_url@).len() > 0 && trim_seq(settings.ai_model@).len() > 0
    &&& settings.ai_summary_alias || settings.ai_auto_tag
    &&& !record.is_sensitive && !record.is_trashed
    &&& ai_eligible_spec(record.content_type@)
    &&& record.content_len matches Some(n) && n >= settings.ai_min_chars
}

/// Whether a capture goes to the background model.
pub fn should_enqueue_ai(settings: &Settings, record: &ClipboardRecord, fresh: bool) -> (r: bool)
    ensures
        r == ai_enqueue_spec(*settings, *record, fresh),
{
    if !fresh || !settings.features.ai || !settings.enable_ai {
        return false;
    }
    let config = AiConfig::from_settings(settings);
    if !config.is_configured() || !(config.summary_enabled || config.tags_enabled) {
        return false;
    }
    if record.is_sensitive || record.is_trashed || !ai_eligible_type(record.content_type.as_str()) {
        return false;
    }
    match record.content_len {
        Some(n) => n >= settings.ai_min_chars,
        None => false,
    }
}

impl ClipboardDb {
    /// Link the distinct trimmed, non-empty `names` to record `id` as auto
    /// tags (created when missing); the number of links that were new.
    pub fn add_auto_tags_by_name(&mut self, record_id: i64, names: &Vec<String>) -> (r: Result<
        usize,
        DbError,
    >)
        ensures
            final(self).frame(*old(self)),
            r matches Ok(n) ==> n <= snapshot_names_upto(names@, names@.len() as int).len(),
            snapshot_names_upto(names@, names@.len() as int).len() == 0 ==> r matches Ok(0),
    {
        let distinct = snapshot_names(names);
        assert(strings_view(distinct@).len() == distinct@.len());
        let mut added: usize = 0;
        let mut i: usize = 0;
        while i < distinct.len()
            invariant
                self.frame(*old(self)),
                0 <= i <= distinct.len(),
                added <= i,
                distinct@.len() == snapshot_names_upto(names@, names@.len() as int).len(),
            decreases distinct.len() - i,
        {
            let tag_id = self.ensure_auto_tag(distinct[i].as_str())?;
            let mut p: Vec<SqlParam> = Vec::new();
            p.push(SqlParam::Int(record_id));
            p.push(SqlParam::Int(tag_id));
            let n = self.exec("INSERT OR IGNORE INTO record_tags (record_id, tag_id) VALUES (?, ?)",
                &p,
            )?;
            if n > 0 {
                added = added + 1;
            }
            i = i + 1;
        }
        if added > 0 {
            self.refresh_record_fts(record_id)?;
        }
        assert(strings_view(distinct@).len() == distinct@.len());
        Ok(added)
    }

    /// Write a model reply for record `id` from the background worker: the
    /// summary becomes the alias only while the record still has no alias
    /// (and is not in the trash); tags are added. `true` when something was
    /// written.
    pub fn apply_ai_result(&mut self, record_id: i64, config: &AiConfig, result: &AiResult) -> (r: bool)
        ensures
            final(self).frame(*old(self)),
            r ==> (config.summary_enabled && result.summary@.len() > 0) || (config.tags_enabled
                && result.tags@.len() > 0),
    {
        let mut changed = false;
        if config.summary_enabled && !result.summary.as_str().is_empty() {
            if let Ok(Some(current)) = self.get_record(record_id) {
                if trim_to_chars(current.alias.as_str()).len() == 0 && !current.is_trashed {
                    if let Ok(written) = self.set_record_alias(record_id, result.summary.as_str()) {
                        changed = changed || !written.as_str().is_empty();
                    }
                }
            }
        }
        if config.tags_enabled && result.tags.len() > 0 {
            if let Ok(n) = self.add_auto_tags_by_name(record_id, &result.tags) {
                changed = changed || n > 0;
            }
        }
        changed
    }

    /// Apply one side of a model reply the user asked for: a blank summary
    /// is an error (it would wipe the alias) and otherwise overwrites the
    /// alias; tags are added, and adding none is an error.
    pub fn apply_on_demand(&mut self, record_id: i64, result: &AiResult, mode: AiEnrichMode) -> (r: Result<
        AiEnrichOutcome,
        String,
    >)
        ensures
            final(self).frame(*old(self)),
            mode == AiEnrichMode::Summary && trim_seq(result.summary@).len() == 0 ==> (r matches Err(
                e,
            ) && e@ == "模型未生成摘要"@),
            mode == AiEnrichMode::Summary ==> (r matches Ok(o) ==> (o.tags is None && (o.alias matches Some(
                a,
            ) && a@ == sanitized_summary(result.summary@)))),
            mode == AiEnrichMode::Tags && snapshot_names_upto(result.tags@, result.tags@.len() as int).len()
                == 0 ==> (r matches Err(e) && e@ == "没有可添加的标签"@),
            mode == AiEnrichMode::Tags ==> (r matches Ok(o) ==> (o.alias is None && o.tags is Some)),
    {
        match mode {
            AiEnrichMode::Summary => {
                let summary = trim_string(result.summary.as_str());
                if summary.as_str().is_empty() {
                    return Err("模型未生成摘要".to_owned());
                }
                match self.set_record_alias(record_id, summary.as_str()) {
                    Ok(alias) => {
                        proof {
                            crate::text::lemma_trim_idempotent(result.summary@);
                        }
                        Ok(AiEnrichOutcome { alias: Some(alias), tags: None })
                    },
                    Err(e) => Err(db_error_text(&e)),
                }
            },
            AiEnrichMode::Tags => {
                if snapshot_names(&result.tags).len() == 0 {
                    return Err("没有可添加的标签".to_owned());
                }
                let added = match self.add_auto_tags_by_name(record_id, &result.tags) {
                    Ok(n) => n,
                    Err(e) => {
                        return Err(db_error_text(&e));
                    },
                };
                if added == 0 {
                    return Err("没有可添加的标签".to_owned());
                }
                match self.get_record_tag_names(record_id) {
                    Ok(tags) => Ok(AiEnrichOutcome { alias: None, tags: Some(tags) }),
                    Err(e) => Err(db_error_text(&e)),
                }
            },
        }
    }
}

/// Message of a store error.
pub open spec fn db_error_message(e: DbError) -> Seq<char> {
    match e {
        DbError::Sql(m) => m@,
        DbError::Invalid(m) => m@,
        DbError::NoRows => "Query returned no rows"@,
    }
}

/// Message of a store error.
pub fn db_error_text(e: &DbError) -> (r: String)
    ensures
        r@ == db_error_message(*e),
{
    match e {
        DbError::Sql(m) => m.clone(),
        DbError::Invalid(m) => m.clone(),
        DbError::NoRows => "Query returned no rows".to_owned(),
    }
}

} // verus!
