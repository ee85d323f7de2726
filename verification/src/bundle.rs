//! Importing record bundles (JSON import, WebDAV pull) into the history:
//! every incoming record is sanitized, then merged into the active row with
//! the same hash or inserted; tag links follow the newer snapshot; the
//! history is trimmed to its capacity.
use vstd::prelude::*;

use crate::ai::ALIAS_MAX_CHARS;
use crate::content::{content_type_name, content_type_of, sha256_hex, text_record_hash};
use crate::db::{ClipboardDb, rolled_back, lemma_rolled_back, logged, lemma_last_logged, lemma_sent_grows, reads_only, count_runs, lemma_count_push, is_run, lemma_last_run, never_runs, read_of, sent_run};
use crate::query::{id_placeholders, params_view, text_less, text_lt, SqlParam, SqlValue};
use crate::record::ClipboardRecord;
use crate::records::{cell_bool, cell_i32, cell_int, cell_opt_text, cell_text, opt_view, read_bool, read_i32, read_int, read_opt_text, read_text};
use crate::security::{
    allowed_media_rel_spec, detect_sensitive, is_allowed_media_rel, is_openable_link,
    is_safe_import_html, normalize_content_type, openable_link_spec, safe_import_html_spec,
    sensitive_spec,
};
use crate::sqlite::{runs, Sent, cell_at, exec, exec_batch, last_insert_rowid, query, query_int, DbError, SqlCell, first_int_spec, first_text_spec};
use crate::sync::{
    byte_len, import_limit, import_limit_message, import_violation, merge_import_fields,
    ImportSanitize, MergeFields, MergeView, merged_view, MAX_IMPORT_HTML_BYTES, MAX_IMPORT_RECORDS,
};
use crate::text::{chars_of, str_eq, string_of, take_chars, trim_seq, trim_string, trim_to_chars};

verus! {

/// Current time plus `seconds`, as RFC 3339 in UTC (`chrono::Utc::now`,
/// `chrono::Duration::seconds`, `DateTime::to_rfc3339`): date, `T`, time
/// to the second with any fraction, and the `+00:00` offset; the value
/// depends on the clock. chrono panics when the date arithmetic leaves its
/// range (about year 262 000); the offset is kept within 250 000 years,
/// which stays in range while the clock reads a year before 12 000.
#[verifier::external_body]
pub(crate) fn rfc3339_in(seconds: i64) -> (r: String)
    requires
        -7_889_400_000_000 <= seconds <= 7_889_400_000_000,
    ensures
        r@.len() >= 25,
        r@.subrange(r@.len() - 6, r@.len() as int) == "+00:00"@,
{
    (chrono::Utc::now() + chrono::Duration::seconds(seconds)).to_rfc3339()
}

/// An incoming record after the boundary checks.
#[derive(Debug, Clone)]
pub struct IncomingRecord {
    pub content_type: String,
    pub hash: String,
    pub media_path: Option<String>,
    pub thumb_path: Option<String>,
    pub content_html: Option<String>,
    pub is_sensitive: bool,
    pub auto_expire_at: Option<String>,
}

/// Stored type name: known names kept, others `text`; a `link` that is not
/// an openable URL is stored as `text`.
pub open spec fn incoming_type(r: ClipboardRecord) -> Seq<char> {
    let t = content_type_name(content_type_of(r.content_type@));
    if t == "link"@ && !openable_link_spec(r.content@) {
        "text"@
    } else {
        t
    }
}

/// Media path kept only inside the media directory.
pub open spec fn incoming_media(r: ClipboardRecord) -> Option<Seq<char>> {
    match r.media_path {
        Some(mp) => if allowed_media_rel_spec(mp@) {
            Some(mp@)
        } else {
            None
        },
        None => None,
    }
}

/// Thumbnail path dropped with a rejected media path, or when outside the
/// media directory itself.
pub open spec fn incoming_thumb(r: ClipboardRecord) -> Option<Seq<char>> {
    let media_rejected = r.media_path matches Some(mp) && !allowed_media_rel_spec(mp@);
    if media_rejected {
        None
    } else {
        match r.thumb_path {
            Some(tp) => if allowed_media_rel_spec(tp@) {
                Some(tp@)
            } else {
                None
            },
            None => None,
        }
    }
}

/// Rich text kept when at most 512 KiB and free of script markers.
pub open spec fn incoming_html(r: ClipboardRecord) -> Option<Seq<char>> {
    match r.content_html {
        Some(h) => if byte_len(h@) <= MAX_IMPORT_HTML_BYTES && safe_import_html_spec(h@) {
            Some(h@)
        } else {
            None
        },
        None => None,
    }
}

/// Records that are skipped: blank text, or a blank hash.
pub open spec fn incoming_skipped(r: ClipboardRecord) -> bool {
    (incoming_type(r) != "image"@ && trim_seq(r.content@).len() == 0) || trim_seq(r.hash@).len()
        == 0
}

/// Identity: image records keep their pixel hash; text records are
/// re-derived as sha256(sha256(content)).
pub open spec fn incoming_hash(r: ClipboardRecord) -> Seq<char> {
    if incoming_type(r) == "image"@ {
        r.hash@
    } else {
        sha256_hex(sha256_hex(r.content@))
    }
}

/// Sensitivity is never downgraded; with a policy, text is re-checked.
pub open spec fn incoming_sensitive(r: ClipboardRecord, sanitize: Option<ImportSanitize>) -> bool {
    match sanitize {
        Some(p) => r.is_sensitive || (p.recheck_sensitive && incoming_type(r) != "image"@
            && sensitive_spec(r.content@)),
        None => r.is_sensitive,
    }
}

/// A copy of an optional text.
pub fn clone_opt_text(o: &Option<String>) -> (r: Option<String>)
    ensures
        opt_view(r) == opt_view(*o),
{
    match o {
        Some(s) => Some(s.clone()),
        None => None,
    }
}

/// Prepare one incoming record; `None` when it is skipped.
pub fn prepare_incoming(r: &ClipboardRecord, sanitize: Option<ImportSanitize>) -> (out: Option<
    IncomingRecord,
>)
    ensures
        out is None <==> incoming_skipped(*r),
        out matches Some(inc) ==> {
            &&& inc.content_type@ == incoming_type(*r)
            &&& inc.hash@ == incoming_hash(*r)
            &&& opt_view(inc.media_path) == incoming_media(*r)
            &&& opt_view(inc.thumb_path) == incoming_thumb(*r)
            &&& opt_view(inc.content_html) == incoming_html(*r)
            &&& inc.is_sensitive == incoming_sensitive(*r, sanitize)
            &&& match sanitize {
                Some(p) => (inc.auto_expire_at is Some <==> inc.is_sensitive
                    && p.sensitive_auto_expire_seconds > 0),
                None => opt_view(inc.auto_expire_at) == opt_view(r.auto_expire_at),
            }
        },
{
    let base = normalize_content_type(r.content_type.as_str());
    let content_type: String = if str_eq(base, "link") && !is_openable_link(r.content.as_str()) {
        "text".to_owned()
    } else {
        base.to_owned()
    };
    let mut media_path: Option<String> = clone_opt_text(&r.media_path);
    let mut thumb_path: Option<String> = clone_opt_text(&r.thumb_path);
    if let Some(mp) = &r.media_path {
        if !is_allowed_media_rel(mp.as_str()) {
            media_path = None;
            thumb_path = None;
        }
    }
    let thumb_ok = match &thumb_path {
        Some(tp) => is_allowed_media_rel(tp.as_str()),
        None => true,
    };
    if !thumb_ok {
        thumb_path = None;
    }
    let content_html: Option<String> = match &r.content_html {
        Some(h) => if h.as_str().as_bytes().len() <= MAX_IMPORT_HTML_BYTES && is_safe_import_html(
            h.as_str(),
        ) {
            Some(h.clone())
        } else {
            None
        },
        None => None,
    };
    let is_image = str_eq(content_type.as_str(), "image");
    let blank_text = trim_to_chars(r.content.as_str()).len() == 0;
    let blank_hash = trim_to_chars(r.hash.as_str()).len() == 0;
    if (!is_image && blank_text) || blank_hash {
        return None;
    }
    let hash = if is_image {
        r.hash.clone()
    } else {
        text_record_hash(r.content.as_str())
    };
    let (is_sensitive, auto_expire_at) = match sanitize {
        Some(policy) => {
            let sensitive = r.is_sensitive || (policy.recheck_sensitive && !is_image
                && detect_sensitive(r.content.as_str()));
            let expire = if sensitive && policy.sensitive_auto_expire_seconds > 0 {
                Some(rfc3339_in(policy.sensitive_auto_expire_seconds as i64))
            } else {
                None
            };
            (sensitive, expire)
        },
        None => (r.is_sensitive, clone_opt_text(&r.auto_expire_at)),
    };
    Some(
        IncomingRecord {
            content_type,
            hash,
            media_path,
            thumb_path,
            content_html,
            is_sensitive,
            auto_expire_at,
        },
    )
}

/// Color of a tag created by the auto-tagger (built-in names have their
/// own color, others indigo).
pub open spec fn auto_tag_color_spec(name: Seq<char>) -> Seq<char> {
    if name == "部署"@ {
        "#22c55e"@
    } else if name == "前端"@ {
        "#6366f1"@
    } else if name == "链接"@ {
        "#eab308"@
    } else if name == "重要"@ {
        "#ef4444"@
    } else if name == "设计"@ {
        "#a855f7"@
    } else {
        "#6366f1"@
    }
}

pub fn auto_tag_color(name: &str) -> (r: &'static str)
    ensures
        r@ == auto_tag_color_spec(name@),
{
    if str_eq(name, "部署") {
        "#22c55e"
    } else if str_eq(name, "前端") {
        "#6366f1"
    } else if str_eq(name, "链接") {
        "#eab308"
    } else if str_eq(name, "重要") {
        "#ef4444"
    } else if str_eq(name, "设计") {
        "#a855f7"
    } else {
        "#6366f1"
    }
}

pub open spec fn strings_view(v: Seq<String>) -> Seq<Seq<char>> {
    v.map_values(|s: String| s@)
}

/// Tag names a snapshot carries, from its first `n` entries: trimmed,
/// non-empty, first occurrence of each.
pub open spec fn snapshot_names_upto(tags: Seq<String>, n: int) -> Seq<Seq<char>>
    decreases n,
{
    if n <= 0 || n > tags.len() {
        Seq::empty()
    } else {
        let prev = snapshot_names_upto(tags, n - 1);
        let t = trim_seq(tags[n - 1]@);
        if t.len() == 0 || prev.contains(t) {
            prev
        } else {
            prev.push(t)
        }
    }
}

pub fn contains_name(v: &Vec<String>, name: &str) -> (r: bool)
    ensures
        r == strings_view(v@).contains(name@),
{
    let mut i: usize = 0;
    while i < v.len()
        invariant
            0 <= i <= v.len(),
            forall|j: int| 0 <= j < i ==> v@[j]@ != name@,
        decreases v.len() - i,
    {
        if str_eq(v[i].as_str(), name) {
            assert(strings_view(v@)[i as int] == name@);
            return true;
        }
        i = i + 1;
    }
    proof {
        if strings_view(v@).contains(name@) {
            let k = choose|k: int| 0 <= k < strings_view(v@).len() && strings_view(v@)[k] == name@;
            assert(v@[k]@ == name@);
        }
    }
    false
}

/// The tag names a snapshot carries.
pub fn snapshot_names(tags: &Vec<String>) -> (r: Vec<String>)
    ensures
        strings_view(r@) == snapshot_names_upto(tags@, tags@.len() as int),
{
    let mut out: Vec<String> = Vec::new();
    let mut i: usize = 0;
    while i < tags.len()
        invariant
            0 <= i <= tags.len(),
            strings_view(out@) == snapshot_names_upto(tags@, i as int),
        decreases tags.len() - i,
    {
        let t = trim_string(tags[i].as_str());
        if !t.as_str().is_empty() && !contains_name(&out, t.as_str()) {
            out.push(t);
            assert(strings_view(out@) =~= snapshot_names_upto(tags@, i + 1));
        } else {
            assert(strings_view(out@) =~= snapshot_names_upto(tags@, i + 1));
        }
        i = i + 1;
    }
    out
}

/// Index of the first color entry for `name`.
pub fn first_color_entry(colors: &Vec<(String, String)>, name: &str) -> (r: Option<usize>)
    ensures
        match r {
            Some(k) => k < colors@.len() && trim_seq(colors@[k as int].0@) == name@ && forall|
                j: int,
            | 0 <= j < k ==> trim_seq(colors@[j].0@) != name@,
            None => forall|j: int| 0 <= j < colors@.len() ==> trim_seq(colors@[j].0@) != name@,
        },
{
    let mut i: usize = 0;
    while i < colors.len()
        invariant
            0 <= i <= colors.len(),
            forall|j: int| 0 <= j < i ==> trim_seq(colors@[j].0@) != name@,
        decreases colors.len() - i,
    {
        let t = trim_string(colors[i].0.as_str());
        if str_eq(t.as_str(), name) {
            return Some(i);
        }
        i = i + 1;
    }
    None
}

/// Color a snapshot asks for `name`: its first entry for that name, else
/// the auto-tag color.
pub fn snapshot_color(colors: &Vec<(String, String)>, name: &str) -> (r: String)
    ensures
        match first_entry_spec(colors@, name@) {
            Some(k) => r@ == colors@[k].1@,
            None => r@ == auto_tag_color_spec(name@),
        },
{
    match first_color_entry(colors, name) {
        Some(k) => {
            proof {
                lemma_first_entry(colors@, name@, k as int);
            }
            colors[k].1.clone()
        },
        None => {
            proof {
                lemma_no_entry(colors@, name@);
            }
            auto_tag_color(name).to_owned()
        },
    }
}

/// Index of the first entry of `colors` whose trimmed name is `name`.
pub open spec fn first_entry_spec(colors: Seq<(String, String)>, name: Seq<char>) -> Option<int> {
    if exists|k: int| 0 <= k < colors.len() && trim_seq(colors[k].0@) == name {
        Some(
            choose|k: int|
                0 <= k < colors.len() && trim_seq(colors[k].0@) == name && forall|j: int|
                    0 <= j < k ==> trim_seq(colors[j].0@) != name,
        )
    } else {
        None
    }
}

proof fn lemma_first_entry(colors: Seq<(String, String)>, name: Seq<char>, k: int)
    requires
        0 <= k < colors.len(),
        trim_seq(colors[k].0@) == name,
        forall|j: int| 0 <= j < k ==> trim_seq(colors[j].0@) != name,
    ensures
        first_entry_spec(colors, name) == Some(k),
{
    let c = choose|c: int|
        0 <= c < colors.len() && trim_seq(colors[c].0@) == name && forall|j: int|
            0 <= j < c ==> trim_seq(colors[j].0@) != name;
    assert(0 <= c < colors.len() && trim_seq(colors[c].0@) == name && forall|j: int|
        0 <= j < c ==> trim_seq(colors[j].0@) != name) by {
        assert(0 <= k < colors.len() && trim_seq(colors[k].0@) == name && forall|j: int|
            0 <= j < k ==> trim_seq(colors[j].0@) != name);
    }
    if c < k {
        assert(trim_seq(colors[c].0@) != name);
    }
    if k < c {
        assert(trim_seq(colors[k].0@) != name);
    }
}

proof fn lemma_no_entry(colors: Seq<(String, String)>, name: Seq<char>)
    requires
        forall|j: int| 0 <= j < colors.len() ==> trim_seq(colors[j].0@) != name,
    ensures
        first_entry_spec(colors, name) is None,
{
}

/// Value bound for an optional text column.
pub open spec fn opt_text_value(o: Option<String>) -> SqlValue {
    match o {
        Some(s) => SqlValue::Text(s@),
        None => SqlValue::Null,
    }
}

/// Value bound for an optional integer column.
pub open spec fn opt_int_value(o: Option<i32>) -> SqlValue {
    match o {
        Some(i) => SqlValue::Int(i as int),
        None => SqlValue::Null,
    }
}

/// Value bound for a flag column.
pub open spec fn flag_value(b: bool) -> SqlValue {
    SqlValue::Int(if b { 1 } else { 0 })
}

pub fn opt_param(o: &Option<String>) -> (p: SqlParam)
    ensures
        match o {
            Some(s) => p is Text && p->Text_0@ == s@,
            None => p is Null,
        },
{
    match o {
        Some(s) => SqlParam::Text(s.clone()),
        None => SqlParam::Null,
    }
}

pub fn flag_param(b: bool) -> (p: SqlParam)
    ensures
        p == SqlParam::Int(if b { 1 } else { 0 }),
{
    SqlParam::Int(if b { 1 } else { 0 })
}

pub fn opt_int_param(o: Option<i32>) -> (p: SqlParam)
    ensures
        match o {
            Some(i) => p == SqlParam::Int(i as i64),
            None => p is Null,
        },
{
    match o {
        Some(i) => SqlParam::Int(i as i64),
        None => SqlParam::Null,
    }
}

/// The oldest `?` active rows that are neither favorite nor pinned: the
/// ones evicted beyond capacity.
pub const EVICT_SELECT_SQL: &'static str = "SELECT id FROM records WHERE is_favorite = 0 AND is_pinned = 0 AND is_trashed = 0
             ORDER BY updated_at ASC LIMIT ?";

/// Number of active rows.
pub const ACTIVE_COUNT_SQL: &'static str = "SELECT COUNT(*) FROM records WHERE is_trashed = 0";

/// `v` is the id in the first cell of one of `rows`.
pub open spec fn selected_id(rows: Seq<Vec<SqlCell>>, v: SqlValue) -> bool {
    exists|j: int| 0 <= j < rows.len() && rows[j]@.len() > 0 && v == SqlValue::Int(
        #[trigger] cell_int(rows[j]@[0])->0 as int,
    ) && cell_int(rows[j]@[0]) is Some
}

/// `e` ran a statement with some ids, each one of the selected `rows`.
pub open spec fn deletes_selected(e: Sent, rows: Seq<Vec<SqlCell>>) -> bool {
    e matches Sent::Ran(_, p, _) && p.len() > 0 && forall|k: int| 0 <= k < p.len() ==> selected_id(rows, #[trigger] p[k])
}

/// `log` is an eviction beyond `max_records`: the active rows were
/// counted; when more than allowed, the oldest rows that are neither
/// favorite nor pinned were selected, as many as the excess, and a last
/// statement deleted rows chosen among them.
pub open spec fn evicted(log: Seq<Sent>, max_records: i32) -> bool {
    exists|rows: Seq<Vec<SqlCell>>| {
        &&& log.len() > 0
        &&& log[0] == #[trigger] read_of(ACTIVE_COUNT_SQL@, Seq::empty(), rows)
        &&& first_int_spec(rows) is Some
        &&& overflow_spec(first_int_spec(rows)->0, max_records) == 0 ==> log.len() == 1
        &&& overflow_spec(first_int_spec(rows)->0, max_records) > 0 ==> log.len() >= 2 && exists|ids: Seq<Vec<SqlCell>>| {
            &&& log[1] == #[trigger] read_of(
                EVICT_SELECT_SQL@,
                seq![SqlValue::Int(overflow_spec(first_int_spec(rows)->0, max_records) as int)],
                ids,
            )
            &&& log.len() > 2 ==> log.len() == 4 && deletes_selected(log.last(), ids)
        }
    }
}

/// A snapshot's color for the tag named `?2`.
pub const TAG_COLOR_BY_NAME_SQL: &'static str = "UPDATE tags SET color = ? WHERE name = ?";

/// The update that writes merged fields onto an active row.
pub const MERGED_UPDATE_SQL: &'static str = "UPDATE records SET is_favorite = ?, is_pinned = ?, copy_count = ?, updated_at = ?,
                media_path = ?, thumb_path = ?, is_sensitive = ?, auto_expire_at = ?,
                source_device_id = ?
             WHERE id = ?";

/// Values bound by [`MERGED_UPDATE_SQL`] for row `id`.
pub open spec fn merged_update_spec(id: i64, m: MergeFields) -> Seq<SqlValue> {
    seq![
        flag_value(m.is_favorite),
        flag_value(m.is_pinned),
        SqlValue::Int(m.copy_count as int),
        SqlValue::Text(m.updated_at@),
        opt_text_value(m.media_path),
        opt_text_value(m.thumb_path),
        flag_value(m.is_sensitive),
        opt_text_value(m.auto_expire_at),
        SqlValue::Text(m.source_device_id@),
        SqlValue::Int(id as int),
    ]
}

pub fn merged_update_params(id: i64, m: &MergeFields) -> (p: Vec<SqlParam>)
    ensures
        params_view(p@) == merged_update_spec(id, *m),
{
    let mut params: Vec<SqlParam> = Vec::new();
    params.push(flag_param(m.is_favorite));
    params.push(flag_param(m.is_pinned));
    params.push(SqlParam::Int(m.copy_count as i64));
    params.push(SqlParam::Text(m.updated_at.clone()));
    params.push(opt_param(&m.media_path));
    params.push(opt_param(&m.thumb_path));
    params.push(flag_param(m.is_sensitive));
    params.push(opt_param(&m.auto_expire_at));
    params.push(SqlParam::Text(m.source_device_id.clone()));
    params.push(SqlParam::Int(id));
    assert(params_view(params@) =~= merged_update_spec(id, *m));
    params
}

/// The insert of an imported record.
pub const IMPORTED_INSERT_SQL: &'static str = "INSERT INTO records (
                content, content_type, source_app, source_window, source_name, source_device_id, hash, copy_count,
                is_favorite, is_pinned, is_sensitive, is_trashed, auto_expire_at, created_at, updated_at,
                media_path, thumb_path, width, height, content_html, alias, content_len
            ) VALUES (?, ?, ?, ?, ?, ?, ?, ?, ?, ?, ?, ?, ?, ?, ?, ?, ?, ?, ?, ?, ?, ?)";

/// Values bound by [`IMPORTED_INSERT_SQL`]: the record's own fields, the
/// sanitized type, hash, media paths, sensitivity, expiry and rich text of
/// `inc`, the alias trimmed to 80 characters, and the character count.
pub open spec fn imported_insert_spec(r: ClipboardRecord, inc: IncomingRecord) -> Seq<SqlValue> {
    seq![
        SqlValue::Text(r.content@),
        SqlValue::Text(inc.content_type@),
        SqlValue::Text(r.source_app@),
        SqlValue::Text(r.source_window@),
        SqlValue::Text(r.source_name@),
        SqlValue::Text(r.source_device_id@),
        SqlValue::Text(inc.hash@),
        SqlValue::Int(r.copy_count as int),
        flag_value(r.is_favorite),
        flag_value(r.is_pinned),
        flag_value(inc.is_sensitive),
        flag_value(r.is_trashed),
        opt_text_value(inc.auto_expire_at),
        SqlValue::Text(r.created_at@),
        SqlValue::Text(r.updated_at@),
        opt_text_value(inc.media_path),
        opt_text_value(inc.thumb_path),
        opt_int_value(r.width),
        opt_int_value(r.height),
        opt_text_value(inc.content_html),
        SqlValue::Text(crate::ai::sanitized_summary(r.alias@)),
        SqlValue::Int((r.content@.len() as i64) as int),
    ]
}

pub fn imported_insert_params(r: &ClipboardRecord, inc: &IncomingRecord) -> (p: Vec<SqlParam>)
    ensures
        params_view(p@) == imported_insert_spec(*r, *inc),
{
    let av = trim_to_chars(r.alias.as_str());
    let alias = string_of(&take_chars(&av, ALIAS_MAX_CHARS));
    let content_len = chars_of(r.content.as_str()).len();
    let mut params: Vec<SqlParam> = Vec::new();
    params.push(SqlParam::Text(r.content.clone()));
    params.push(SqlParam::Text(inc.content_type.clone()));
    params.push(SqlParam::Text(r.source_app.clone()));
    params.push(SqlParam::Text(r.source_window.clone()));
    params.push(SqlParam::Text(r.source_name.clone()));
    params.push(SqlParam::Text(r.source_device_id.clone()));
    params.push(SqlParam::Text(inc.hash.clone()));
    params.push(SqlParam::Int(r.copy_count as i64));
    params.push(flag_param(r.is_favorite));
    params.push(flag_param(r.is_pinned));
    params.push(flag_param(inc.is_sensitive));
    params.push(flag_param(r.is_trashed));
    params.push(opt_param(&inc.auto_expire_at));
    params.push(SqlParam::Text(r.created_at.clone()));
    params.push(SqlParam::Text(r.updated_at.clone()));
    params.push(opt_param(&inc.media_path));
    params.push(opt_param(&inc.thumb_path));
    params.push(opt_int_param(r.width));
    params.push(opt_int_param(r.height));
    params.push(opt_param(&inc.content_html));
    params.push(SqlParam::Text(alias));
    params.push(SqlParam::Int(content_len as i64));
    assert(params_view(params@) =~= imported_insert_spec(*r, *inc));
    params
}


/// The state an incoming record brings to a merge.
pub fn incoming_fields(r: &ClipboardRecord, inc: &IncomingRecord) -> (m: MergeFields)
    ensures
        m.is_favorite == r.is_favorite,
        m.is_pinned == r.is_pinned,
        m.copy_count == r.copy_count,
        m.updated_at@ == r.updated_at@,
        opt_view(m.media_path) == opt_view(inc.media_path),
        opt_view(m.thumb_path) == opt_view(inc.thumb_path),
        m.is_sensitive == inc.is_sensitive,
        opt_view(m.auto_expire_at) == opt_view(inc.auto_expire_at),
        m.source_device_id@ == r.source_device_id@,
        m.created_at@ == r.created_at@,
{
    MergeFields {
        is_favorite: r.is_favorite,
        is_pinned: r.is_pinned,
        copy_count: r.copy_count,
        updated_at: r.updated_at.clone(),
        media_path: clone_opt_text(&inc.media_path),
        thumb_path: clone_opt_text(&inc.thumb_path),
        is_sensitive: inc.is_sensitive,
        auto_expire_at: clone_opt_text(&inc.auto_expire_at),
        source_device_id: r.source_device_id.clone(),
        created_at: r.created_at.clone(),
    }
}

/// `cells` is the row `(id, is_favorite, is_pinned, copy_count,
/// updated_at, media_path, thumb_path, is_sensitive, auto_expire_at,
/// source_device_id, created_at)` of row `id` in state `m`.
pub open spec fn merge_row_is(cells: Seq<SqlCell>, id: i64, m: MergeFields) -> bool {
    &&& cells.len() >= 11
    &&& cell_int(cells[0]) == Some(id)
    &&& cell_bool(cells[1]) == Some(m.is_favorite)
    &&& cell_bool(cells[2]) == Some(m.is_pinned)
    &&& cell_i32(cells[3]) == Some(m.copy_count)
    &&& cell_text(cells[4]) == Some(m.updated_at@)
    &&& cell_opt_text(cells[5]) == Some(opt_view(m.media_path))
    &&& cell_opt_text(cells[6]) == Some(opt_view(m.thumb_path))
    &&& cell_bool(cells[7]) == Some(m.is_sensitive)
    &&& cell_opt_text(cells[8]) == Some(opt_view(m.auto_expire_at))
    &&& cell_text(cells[9]) == Some(m.source_device_id@)
    &&& cell_text(cells[10]) == Some(m.created_at@)
}

/// The active row of a hash, in merge shape.
pub const ACTIVE_ROW_SQL: &'static str = "SELECT id, is_favorite, is_pinned, copy_count, updated_at, media_path, thumb_path,
                    is_sensitive, auto_expire_at, source_device_id, created_at
             FROM records WHERE hash = ? AND is_trashed = 0";

/// The state an incoming record brings to a merge.
pub open spec fn incoming_view(r: ClipboardRecord, inc: IncomingRecord) -> MergeView {
    MergeView {
        fav: r.is_favorite,
        pin: r.is_pinned,
        copies: r.copy_count as int,
        updated: r.updated_at@,
        media: opt_view(inc.media_path),
        thumb: opt_view(inc.thumb_path),
        sensitive: inc.is_sensitive,
        expire: opt_view(inc.auto_expire_at),
        device: r.source_device_id@,
        created: r.created_at@,
    }
}

/// `inc` is what preparing `r` for import gives.
pub open spec fn prepared(r: ClipboardRecord, inc: IncomingRecord, sanitize: Option<ImportSanitize>) -> bool {
    &&& !incoming_skipped(r)
    &&& inc.content_type@ == incoming_type(r)
    &&& inc.hash@ == incoming_hash(r)
    &&& opt_view(inc.media_path) == incoming_media(r)
    &&& opt_view(inc.thumb_path) == incoming_thumb(r)
    &&& opt_view(inc.content_html) == incoming_html(r)
    &&& inc.is_sensitive == incoming_sensitive(r, sanitize)
    &&& match sanitize {
        Some(p) => (inc.auto_expire_at is Some <==> inc.is_sensitive && p.sensitive_auto_expire_seconds
            > 0),
        None => opt_view(inc.auto_expire_at) == opt_view(r.auto_expire_at),
    }
}

/// `log` carries the import of `r`: unless skipped, the active row of its
/// hash was read; with none, `r` was inserted as prepared; otherwise that
/// row was updated to the merge of its state and `r`'s.
pub open spec fn imported(log: Seq<Sent>, r: ClipboardRecord, sanitize: Option<ImportSanitize>) -> bool {
    incoming_skipped(r) || exists|inc: IncomingRecord, rows: Seq<Vec<SqlCell>>|
        #[trigger] prepared(r, inc, sanitize) && #[trigger] logged(
            log,
            read_of(ACTIVE_ROW_SQL@, seq![SqlValue::Text(incoming_hash(r))], rows),
        ) && if rows.len() == 0 {
            sent_run(log, IMPORTED_INSERT_SQL@, imported_insert_spec(r, inc))
        } else {
            exists|id: i64, local: MergeFields, m: MergeFields|
                #[trigger] merge_row_is(rows[0]@, id, local) && m@ == merged_view(local@, incoming_view(r, inc))
                    && sent_run(log, MERGED_UPDATE_SQL@, #[trigger] merged_update_spec(id, m))
        }
}

/// The import of `r` carried by what `prev` to `mid`, or `mid` to `cur`,
/// sent is carried by what `prev` to `cur` sent.
pub proof fn lemma_imported_grows(
    prev: ClipboardDb,
    mid: ClipboardDb,
    cur: ClipboardDb,
    r: ClipboardRecord,
    sanitize: Option<ImportSanitize>,
)
    requires
        mid.frame(prev),
        cur.frame(mid),
        imported(mid.sent_since(prev), r, sanitize) || imported(cur.sent_since(mid), r, sanitize),
    ensures
        imported(cur.sent_since(prev), r, sanitize),
{
    lemma_sent_grows(prev, mid, cur);
    if !incoming_skipped(r) {
        let d = if imported(mid.sent_since(prev), r, sanitize) {
            mid.sent_since(prev)
        } else {
            cur.sent_since(mid)
        };
        let c = cur.sent_since(prev);
        let (inc, rows) = choose|inc: IncomingRecord, rows: Seq<Vec<SqlCell>>|
            #[trigger] prepared(r, inc, sanitize) && #[trigger] logged(
                d,
                read_of(ACTIVE_ROW_SQL@, seq![SqlValue::Text(incoming_hash(r))], rows),
            ) && if rows.len() == 0 {
                sent_run(d, IMPORTED_INSERT_SQL@, imported_insert_spec(r, inc))
            } else {
                exists|id: i64, local: MergeFields, m: MergeFields|
                    #[trigger] merge_row_is(rows[0]@, id, local) && m@ == merged_view(local@, incoming_view(r, inc))
                        && sent_run(d, MERGED_UPDATE_SQL@, #[trigger] merged_update_spec(id, m))
            };
        assert(logged(c, read_of(ACTIVE_ROW_SQL@, seq![SqlValue::Text(incoming_hash(r))], rows)));
        if rows.len() == 0 {
            assert(sent_run(c, IMPORTED_INSERT_SQL@, imported_insert_spec(r, inc)));
        } else {
            let (id, local, m) = choose|id: i64, local: MergeFields, m: MergeFields|
                #[trigger] merge_row_is(rows[0]@, id, local) && m@ == merged_view(local@, incoming_view(r, inc))
                    && sent_run(d, MERGED_UPDATE_SQL@, #[trigger] merged_update_spec(id, m));
            assert(sent_run(c, MERGED_UPDATE_SQL@, merged_update_spec(id, m)));
        }
    }
}

/// Since `prev`, `cur` imported `records` in one transaction: it began,
/// carried the import of every record (see [`imported`]), and committed.
pub open spec fn import_sent(
    prev: ClipboardDb,
    cur: ClipboardDb,
    records: Seq<ClipboardRecord>,
    sanitize: Option<ImportSanitize>,
) -> bool {
    let sent = cur.sent_since(prev);
    &&& sent.len() > 0
    &&& sent[0] == Sent::Batch("BEGIN"@)
    &&& sent.last() == Sent::Batch("COMMIT"@)
    &&& forall|j: int| 0 <= j < records.len() ==> imported(sent, #[trigger] records[j], sanitize)
}

/// Kept records among the first `n` whose snapshot carries tag names.
pub open spec fn tagged_upto(rs: Seq<ClipboardRecord>, n: int) -> nat
    decreases n,
{
    if n <= 0 || n > rs.len() {
        0
    } else {
        tagged_upto(rs, n - 1) + if !incoming_skipped(rs[n - 1]) && snapshot_names_upto(
            rs[n - 1].tags@,
            rs[n - 1].tags@.len() as int,
        ).len() > 0 {
            1nat
        } else {
            0nat
        }
    }
}

/// Whether an incoming tag snapshot is applied: it carries tag names and
/// is not older than the local row (a fresh row has none).
pub open spec fn snapshot_applies_spec(has_tags: bool, incoming_updated_at: Seq<char>, local_updated_at: Option<Seq<char>>) -> bool {
    has_tags && match local_updated_at {
        Some(l) => !text_lt(incoming_updated_at, l),
        None => true,
    }
}

/// Decide whether an incoming tag snapshot is applied.
pub fn snapshot_applies(has_tags: bool, incoming_updated_at: &str, local_updated_at: Option<&str>) -> (r: bool)
    ensures
        r == snapshot_applies_spec(has_tags, incoming_updated_at@, crate::capture::html_view(local_updated_at)),
{
    if !has_tags {
        return false;
    }
    match local_updated_at {
        Some(l) => !text_less(incoming_updated_at, l),
        None => true,
    }
}

/// A row of `(id, is_favorite, is_pinned, copy_count, updated_at,
/// media_path, thumb_path, is_sensitive, auto_expire_at, source_device_id,
/// created_at)`.
pub fn merge_row(cells: &Vec<SqlCell>) -> (r: Option<(i64, MergeFields)>)
    ensures
        r is Some <==> {
            &&& cells@.len() >= 11
            &&& cell_int(cells@[0]) is Some
            &&& cell_bool(cells@[1]) is Some
            &&& cell_bool(cells@[2]) is Some
            &&& cell_i32(cells@[3]) is Some
            &&& cell_text(cells@[4]) is Some
            &&& cell_opt_text(cells@[5]) is Some
            &&& cell_opt_text(cells@[6]) is Some
            &&& cell_bool(cells@[7]) is Some
            &&& cell_opt_text(cells@[8]) is Some
            &&& cell_text(cells@[9]) is Some
            &&& cell_text(cells@[10]) is Some
        },
        r matches Some((id, m)) ==> merge_row_is(cells@, id, m),
        r matches Some((id, m)) ==> {
            &&& cell_int(cells@[0]) == Some(id)
            &&& cell_bool(cells@[1]) == Some(m.is_favorite)
            &&& cell_bool(cells@[2]) == Some(m.is_pinned)
            &&& cell_i32(cells@[3]) == Some(m.copy_count)
            &&& cell_text(cells@[4]) == Some(m.updated_at@)
            &&& cell_opt_text(cells@[5]) == Some(opt_view(m.media_path))
            &&& cell_opt_text(cells@[6]) == Some(opt_view(m.thumb_path))
            &&& cell_bool(cells@[7]) == Some(m.is_sensitive)
            &&& cell_opt_text(cells@[8]) == Some(opt_view(m.auto_expire_at))
            &&& cell_text(cells@[9]) == Some(m.source_device_id@)
            &&& cell_text(cells@[10]) == Some(m.created_at@)
        },
{
    if cells.len() < 11 {
        return None;
    }
    let id = read_int(&cells[0])?;
    let is_favorite = read_bool(&cells[1])?;
    let is_pinned = read_bool(&cells[2])?;
    let copy_count = read_i32(&cells[3])?;
    let updated_at = read_text(&cells[4])?;
    let media_path = read_opt_text(&cells[5])?;
    let thumb_path = read_opt_text(&cells[6])?;
    let is_sensitive = read_bool(&cells[7])?;
    let auto_expire_at = read_opt_text(&cells[8])?;
    let source_device_id = read_text(&cells[9])?;
    let created_at = read_text(&cells[10])?;
    Some(
        (
            id,
            MergeFields {
                is_favorite,
                is_pinned,
                copy_count,
                updated_at,
                media_path,
                thumb_path,
                is_sensitive,
                auto_expire_at,
                source_device_id,
                created_at,
            },
        ),
    )
}

/// Capacity overflow: how many active rows exceed `max_records` (at least
/// one row is always allowed).
pub open spec fn overflow_spec(active: i64, max_records: i32) -> int {
    let max: int = if max_records < 1 { 1 } else { max_records as int };
    if active > max {
        active - max
    } else {
        0
    }
}

/// Evicting the overflow brings the active rows down to capacity (at
/// least one row is always kept), and nothing is evicted within capacity.
pub proof fn lemma_eviction_reaches_capacity(active: i64, max_records: i32)
    requires
        active >= 0,
    ensures
        overflow_spec(active, max_records) >= 0,
        active - overflow_spec(active, max_records) <= (if max_records < 1 { 1 } else { max_records as int }),
        active <= (if max_records < 1 { 1 } else { max_records as int }) ==> overflow_spec(active, max_records) == 0,
        overflow_spec(active, max_records) > 0 ==> active - overflow_spec(active, max_records) == (if max_records < 1 { 1 } else { max_records as int }),
{
}

pub fn overflow_count(active: i64, max_records: i32) -> (r: i64)
    ensures
        r == overflow_spec(active, max_records),
{
    let max: i64 = if max_records < 1 { 1 } else { max_records as i64 };
    if active > max {
        active - max
    } else {
        0
    }
}

/// Records a bundle would write: those not skipped, among the first `n`.
pub open spec fn kept_upto(rs: Seq<ClipboardRecord>, n: int) -> nat
    decreases n,
{
    if n <= 0 || n > rs.len() {
        0
    } else {
        kept_upto(rs, n - 1) + if incoming_skipped(rs[n - 1]) {
            0nat
        } else {
            1nat
        }
    }
}

proof fn lemma_kept_bounded(rs: Seq<ClipboardRecord>, n: int)
    requires
        0 <= n <= rs.len(),
    ensures
        kept_upto(rs, n) <= n,
    decreases n,
{
    if n > 0 {
        lemma_kept_bounded(rs, n - 1);
    }
}

/// The first-column texts of `rows`, in order; other rows are skipped.
pub open spec fn first_texts(rows: Seq<Vec<SqlCell>>) -> Seq<Seq<char>>
    decreases rows.len(),
{
    if rows.len() == 0 {
        Seq::empty()
    } else {
        let pre = first_texts(rows.drop_last());
        match cell_at(rows, rows.len() - 1, 0) {
            Some(SqlCell::Text(t)) => pre.push(t@),
            _ => pre,
        }
    }
}

/// The record names linked to `rows` (first column text).
pub(crate) fn text_column(rows: &Vec<Vec<SqlCell>>) -> (r: Vec<String>)
    ensures
        strings_view(r@) == first_texts(rows@),
{
    let mut out: Vec<String> = Vec::new();
    let mut i: usize = 0;
    while i < rows.len()
        invariant
            0 <= i <= rows.len(),
            strings_view(out@) == first_texts(rows@.take(i as int)),
        decreases rows.len() - i,
    {
        let ghost before = out@;
        proof {
            assert(rows@.take(i as int + 1).drop_last() =~= rows@.take(i as int));
            assert(cell_at(rows@.take(i as int + 1), i as int, 0) == cell_at(rows@, i as int, 0));
        }
        if rows[i].len() > 0 {
            if let SqlCell::Text(t) = &rows[i][0] {
                out.push(t.clone());
                proof {
                    assert(strings_view(out@) =~= strings_view(before).push(t@));
                }
            }
        }
        i = i + 1;
    }
    proof {
        assert(rows@.take(rows@.len() as int) =~= rows@);
    }
    out
}

/// Same names, as sets.
pub open spec fn same_names_spec(a: Seq<Seq<char>>, b: Seq<Seq<char>>) -> bool {
    (forall|x: Seq<char>| a.contains(x) ==> b.contains(x)) && (forall|x: Seq<char>|
        b.contains(x) ==> a.contains(x))
}

pub fn same_names(a: &Vec<String>, b: &Vec<String>) -> (r: bool)
    ensures
        r == same_names_spec(strings_view(a@), strings_view(b@)),
{
    let ok_ab = all_in(a, b);
    let ok_ba = all_in(b, a);
    ok_ab && ok_ba
}

/// Every name of `a` is in `b`.
fn all_in(a: &Vec<String>, b: &Vec<String>) -> (r: bool)
    ensures
        r == (forall|x: Seq<char>| strings_view(a@).contains(x) ==> strings_view(b@).contains(x)),
{
    let mut i: usize = 0;
    while i < a.len()
        invariant
            0 <= i <= a.len(),
            forall|j: int| 0 <= j < i ==> strings_view(b@).contains(#[trigger] a@[j]@),
        decreases a.len() - i,
    {
        if !contains_name(b, a[i].as_str()) {
            assert(strings_view(a@)[i as int] == a@[i as int]@);
            return false;
        }
        i = i + 1;
    }
    assert forall|x: Seq<char>| strings_view(a@).contains(x) implies strings_view(b@).contains(
        x,
    ) by {
        let k = choose|k: int| 0 <= k < strings_view(a@).len() && strings_view(a@)[k] == x;
        assert(a@[k]@ == x);
    }
    true
}

/// Rebuild the full-text row of record `id` (content prefix, source, tag
/// names, alias).
pub(crate) fn refresh_fts_row(conn: &rusqlite::Connection, id: i64) -> (r: Result<(), DbError>) {
    let params = crate::capture::id_param(id);
    exec(conn, FTS_DELETE_SQL, &params)?;
    exec(conn, FTS_INSERT_SQL, &params)?;
    Ok(())
}

/// Names of the tags linked to one record.
pub const RECORD_TAG_NAMES_SQL: &'static str = "SELECT t.name FROM tags t
             INNER JOIN record_tags rt ON rt.tag_id = t.id
             WHERE rt.record_id = ?";

/// Drop the full-text row of one record.
pub const FTS_DELETE_SQL: &'static str = "DELETE FROM records_fts WHERE rowid = ?";

/// Rebuild the full-text row of one record from its content prefix, source,
/// tag names and alias.
pub const FTS_INSERT_SQL: &'static str = "INSERT INTO records_fts(rowid, content, source_app, source_window, tags, alias)
         SELECT
            r.id,
            substr(content, 1, 32768),
            r.source_app,
            r.source_window,
            COALESCE((
                SELECT group_concat(t.name, ' ')
                FROM record_tags rt
                INNER JOIN tags t ON t.id = rt.tag_id
                WHERE rt.record_id = r.id
            ), ''),
            r.alias
         FROM records r WHERE r.id = ?";

impl ClipboardDb {
    /// The active row holding `hash`, with its mergeable state.
    fn active_row_for_hash(&mut self, hash: &str) -> (r: Result<Option<(i64, MergeFields)>, DbError>)
        ensures
            final(self).frame(*old(self)),
            r matches Ok(v) ==> exists|rows: Seq<Vec<SqlCell>>|
                final(self).log() == old(self).log().push(
                    #[trigger] read_of(ACTIVE_ROW_SQL@, seq![SqlValue::Text(hash@)], rows),
                ) && match v {
                    None => rows.len() == 0,
                    Some((id, m)) => rows.len() > 0 && merge_row_is(rows[0]@, id, m),
                },
    {
        let params = crate::tagdb::text_params(hash);
        let rows = self.query(ACTIVE_ROW_SQL, &params)?;
        assert(self.log() == old(self).log().push(read_of(ACTIVE_ROW_SQL@, seq![SqlValue::Text(hash@)], rows@)));
        if rows.len() == 0 {
            return Ok(None);
        }
        match merge_row(&rows[0]) {
            Some(row) => Ok(Some(row)),
            None => Err(crate::records::bad_row()),
        }
    }

    /// Store the merged state of row `id`.
    fn write_merged(&mut self, id: i64, m: &MergeFields) -> (r: Result<(), DbError>)
        ensures
            final(self).frame(*old(self)),
            r is Ok ==> sent_run(final(self).sent_since(*old(self)), MERGED_UPDATE_SQL@, merged_update_spec(id, *m)),
    {
        let params = merged_update_params(id, m);
        self.exec(MERGED_UPDATE_SQL, &params)?;
        proof {
            lemma_last_run(*old(self), *self, MERGED_UPDATE_SQL@, merged_update_spec(id, *m));
        }
        Ok(())
    }

    /// Insert an incoming record as a new row; its id.
    fn insert_imported(&mut self, r: &ClipboardRecord, inc: &IncomingRecord) -> (res: Result<i64, DbError>)
        ensures
            final(self).frame(*old(self)),
            res is Ok ==> sent_run(final(self).sent_since(*old(self)), IMPORTED_INSERT_SQL@, imported_insert_spec(*r, *inc)),
    {
        let params = imported_insert_params(r, inc);
        self.exec(IMPORTED_INSERT_SQL, &params)?;
        let ghost s1 = *self;
        proof {
            lemma_last_run(*old(self), s1, IMPORTED_INSERT_SQL@, imported_insert_spec(*r, *inc));
        }
        let id = self.last_insert_rowid();
        proof {
            lemma_sent_grows(*old(self), s1, *self);
        }
        Ok(id)
    }

    /// Id of the tag `name`, creating it with `color` when missing.
    pub(crate) fn ensure_tag(&mut self, name: &str, color: &str) -> (r: Result<i64, DbError>)
        ensures
            final(self).frame(*old(self)),
    {
        let mut params: Vec<SqlParam> = Vec::new();
        params.push(SqlParam::Text(name.to_owned()));
        if let Some(id) = self.query_int("SELECT id FROM tags WHERE name = ?", &params)? {
            return Ok(id);
        }
        let mut ins: Vec<SqlParam> = Vec::new();
        ins.push(SqlParam::Text(name.to_owned()));
        ins.push(SqlParam::Text(color.to_owned()));
        self.exec("INSERT INTO tags (name, color) VALUES (?, ?)", &ins)?;
        Ok(self.last_insert_rowid())
    }

    /// Names of the tags linked to record `id`.
    pub(crate) fn record_tag_names(&mut self, id: i64) -> (r: Result<Vec<String>, DbError>)
        ensures
            final(self).frame(*old(self)),
            reads_only(*old(self), *final(self)),
            r matches Ok(v) ==> exists|rows: Seq<Vec<SqlCell>>|
                final(self).log() == old(self).log().push(
                    #[trigger] read_of(RECORD_TAG_NAMES_SQL@, seq![SqlValue::Int(id as int)], rows),
                ) && strings_view(v@) == first_texts(rows),
    {
        let params = crate::capture::id_param(id);
        let rows = self.query(RECORD_TAG_NAMES_SQL, &params)?;
        assert(self.log() == old(self).log().push(read_of(RECORD_TAG_NAMES_SQL@, seq![SqlValue::Int(id as int)], rows@)));
        Ok(text_column(&rows))
    }

    /// Rebuild the full-text row of one record (tags, source, alias).
    pub(crate) fn refresh_record_fts(&mut self, id: i64) -> (r: Result<(), DbError>)
        ensures
            final(self).frame(*old(self)),
            r is Ok ==> runs(
                final(self).sent_since(*old(self)),
                seq![
                    (FTS_DELETE_SQL@, seq![SqlValue::Int(id as int)]),
                    (FTS_INSERT_SQL@, seq![SqlValue::Int(id as int)]),
                ],
            ),
            r is Ok ==> forall|q: Seq<char>|
                q != FTS_DELETE_SQL@ && q != FTS_INSERT_SQL@ ==> #[trigger] count_runs(final(self).log(), q)
                    == count_runs(old(self).log(), q),
    {
        let ghost l0 = self.log();
        let p = crate::capture::id_param(id);
        self.exec(FTS_DELETE_SQL, &p)?;
        let ghost l1 = self.log();
        self.exec(FTS_INSERT_SQL, &p)?;
        proof {
            assert forall|q: Seq<char>|
                q != FTS_DELETE_SQL@ && q != FTS_INSERT_SQL@ implies #[trigger] count_runs(self.log(), q)
                    == count_runs(old(self).log(), q) by {
                lemma_count_push(l0, l1.last(), q);
                lemma_count_push(l1, self.log().last(), q);
                assert(l1 =~= l0.push(l1.last()));
                assert(self.log() =~= l1.push(self.log().last()));
            }
        }
        assert(self.sent_since(*old(self)) =~= self.log().subrange(l0.len() as int, l0.len() + (2 as int)));
        Ok(())
    }

    /// Every tag deletion tombstone, `(name, deleted_at)`.
    fn tag_tombstone_rows(&mut self) -> (r: Result<Vec<(String, String)>, DbError>)
        ensures
            final(self).frame(*old(self)),
    {
        let rows = self.query("SELECT name, deleted_at FROM tag_tombstones",
            &Vec::new(),
        )?;
        match crate::tagdb::text_pairs(&rows) {
            Some(t) => Ok(t),
            None => Err(crate::records::bad_row()),
        }
    }

    /// Make the links of record `id` the snapshot's tag names (creating
    /// missing tags in the snapshot's color), leaving out the names whose
    /// tag was deleted at or after the snapshot's `updated_at`. With
    /// `apply_colors`, the snapshot's colors are also applied to existing
    /// tags. `Ok(true)` when the set of linked names changed.
    fn apply_tag_snapshot(&mut self, id: i64, r: &ClipboardRecord, apply_colors: bool) -> (res: Result<
        bool,
        DbError,
    >)
        ensures
            final(self).frame(*old(self)),
    {
        let all_names = snapshot_names(&r.tags);
        let tombstones = self.tag_tombstone_rows()?;
        let names = crate::tagsync::names_not_tombstoned(&all_names, &tombstones, r.updated_at.as_str());
        let current = self.record_tag_names(id)?;
        let changed = !same_names(&current, &names);
        if changed {
            self.exec(crate::tagdb::RECORD_UNLINK_ALL_SQL, &crate::capture::id_param(id))?;
            let mut i: usize = 0;
            while i < names.len()
                invariant
                    self.frame(*old(self)),
                decreases names.len() - i,
            {
                let color = snapshot_color(&r.tag_colors, names[i].as_str());
                let tag_id = self.ensure_tag(names[i].as_str(), color.as_str())?;
                self.exec(crate::tagdb::RECORD_LINK_SQL,
                    &crate::tagdb::int_int_params(id, tag_id),
                )?;
                i = i + 1;
            }
        }
        if apply_colors {
            let mut k: usize = 0;
            while k < names.len()
                invariant
                    self.frame(*old(self)),
                decreases names.len() - k,
            {
                if first_color_entry(&r.tag_colors, names[k].as_str()).is_some() {
                    let color = snapshot_color(&r.tag_colors, names[k].as_str());
                    self.exec(TAG_COLOR_BY_NAME_SQL,
                        &crate::tagdb::text_text_params(color.as_str(), names[k].as_str()),
                    )?;
                }
                k = k + 1;
            }
        }
        if changed {
            self.refresh_record_fts(id)?;
        }
        Ok(changed)
    }

    /// Delete the oldest active rows that are neither favorite nor pinned
    /// while more than `max_records` are active; the media paths of the
    /// deleted rows are returned for the caller to remove from disk.
    pub fn evict_over_limit(&mut self, max_records: i32) -> (r: Result<
        Vec<(Option<String>, Option<String>)>,
        DbError,
    >)
        ensures
            final(self).frame(*old(self)),
            r is Ok ==> evicted(final(self).sent_since(*old(self)), max_records),
    {
        let none: Vec<SqlParam> = Vec::new();
        let crows = self.query(ACTIVE_COUNT_SQL, &none)?;
        let ghost c0 = read_of(ACTIVE_COUNT_SQL@, Seq::empty(), crows@);
        proof {
            assert(params_view(none@) =~= Seq::<SqlValue>::empty());
            assert(self.sent_since(*old(self)) =~= seq![c0]);
        }
        let active = match crate::sqlite::first_int(&crows) {
            Some(n) => n,
            None => {
                return Err(DbError::NoRows);
            },
        };
        let overflow = overflow_count(active, max_records);
        if overflow == 0 {
            return Ok(Vec::new());
        }
        let id_rows = self.query(EVICT_SELECT_SQL, &crate::capture::id_param(overflow))?;
        let ghost s1 = *self;
        let ghost c1 = read_of(EVICT_SELECT_SQL@, seq![SqlValue::Int(overflow as int)], id_rows@);
        proof {
            assert(self.sent_since(*old(self)) =~= seq![c0, c1]);
        }
        let mut ids: Vec<SqlParam> = Vec::new();
        let mut i: usize = 0;
        while i < id_rows.len()
            invariant
                0 <= i <= id_rows@.len(),
                forall|k: int| 0 <= k < ids@.len() ==> selected_id(id_rows@, #[trigger] params_view(ids@)[k]),
            decreases id_rows.len() - i,
        {
            if id_rows[i].len() > 0 {
                if let SqlCell::Int(v) = &id_rows[i][0] {
                    let ghost before = ids@;
                    ids.push(SqlParam::Int(*v));
                    proof {
                        assert(cell_int(id_rows@[i as int]@[0]) == Some(*v));
                        assert(selected_id(id_rows@, SqlValue::Int(*v as int)));
                        assert forall|k: int| 0 <= k < ids@.len() implies selected_id(id_rows@, #[trigger] params_view(ids@)[k]) by {
                            if k < before.len() {
                                assert(params_view(ids@)[k] == params_view(before)[k]);
                            }
                        }
                    }
                }
            }
            i = i + 1;
        }
        if ids.len() == 0 {
            return Ok(Vec::new());
        }
        let ph = id_placeholders(ids.len());
        let mut sel = String::new();
        sel.append("SELECT media_path, thumb_path FROM records WHERE id IN (");
        sel.append(ph.as_str());
        sel.append(")");
        let media_rows = self.query(sel.as_str(), &ids)?;
        let ghost s2 = *self;
        let mut media: Vec<(Option<String>, Option<String>)> = Vec::new();
        let mut j: usize = 0;
        while j < media_rows.len()
            invariant
                self.frame(*old(self)),
                *self == s2,
            decreases media_rows.len() - j,
        {
            if media_rows[j].len() >= 2 {
                let mp = read_opt_text(&media_rows[j][0]);
                let tp = read_opt_text(&media_rows[j][1]);
                match (mp, tp) {
                    (Some(m), Some(t)) => media.push((m, t)),
                    _ => {
                        return Err(crate::records::bad_row());
                    },
                }
            }
            j = j + 1;
        }
        let mut del = String::new();
        del.append("DELETE FROM records WHERE id IN (");
        del.append(ph.as_str());
        del.append(")");
        self.exec(del.as_str(), &ids)?;
        proof {
            let sent = self.sent_since(*old(self));
            assert(sent.len() == 4);
            assert(sent[0] == c0);
            assert(sent[1] == c1);
            assert(sent.last() == self.log().last());
        }
        Ok(media)
    }

    /// Import a bundle with hash dedup, inside one transaction. An incoming
    /// record whose hash has an active row is merged into it (see
    /// `merged_view`); otherwise it is inserted. Tag links follow the
    /// incoming snapshot when it carries tags and is not older than the
    /// local row. Returns `(inserted, merged, tags_changed)` and the media of
    /// rows evicted to stay within `max_records`.
    pub fn import_records_evicting(
        &mut self,
        records: &[ClipboardRecord],
        max_records: i32,
        sanitize: Option<ImportSanitize>,
    ) -> (r: Result<((i32, i32, i32), Vec<(Option<String>, Option<String>)>), DbError>)
        ensures
            final(self).frame(*old(self)),
            import_violation(records@) matches Some(l) ==> r matches Err(e) && e matches DbError::Invalid(
                m,
            ) && m@ == import_limit_message(l),
            r is Err && import_violation(records@) is None ==> rolled_back(final(self).sent_since(*old(self))),
            r matches Ok(((inserted, merged, tags_changed), _)) ==> {
                &&& import_violation(records@) is None
                &&& inserted >= 0 && merged >= 0
                &&& inserted + merged == kept_upto(records@, records@.len() as int)
                &&& 0 <= tags_changed <= inserted + merged
                &&& tags_changed <= tagged_upto(records@, records@.len() as int)
                &&& import_sent(*old(self), *final(self), records@, sanitize)
                &&& exists|i: int|
                    0 < i <= final(self).sent_since(*old(self)).len() - 1 && #[trigger] evicted(
                        final(self).sent_since(*old(self)).subrange(
                            i,
                            final(self).sent_since(*old(self)).len() - 1,
                        ),
                        max_records,
                    )
            },
    {
        if let Some(l) = import_limit(records) {
            return Err(DbError::Invalid(l.message()));
        }
        if let Err(e) = self.exec_batch("BEGIN") {
            assert(self.sent_since(*old(self)) =~= seq![Sent::Refused("BEGIN"@, Seq::empty())]);
            return Err(e);
        }
        let ghost sb = *self;
        proof {
            assert(sb.sent_since(*old(self)) =~= seq![sb.log().last()]);
        }
        match self.import_in_tx(records, sanitize) {
            Ok(counts) => {
                let ghost si = *self;
                match self.evict_over_limit(max_records) {
                    Ok(media) => {
                        let ghost se = *self;
                        match self.exec_batch("COMMIT") {
                            Ok(()) => {
                                proof {
                                    lemma_sent_grows(*old(self), si, se);
                                    let sent = self.sent_since(*old(self));
                                    let i = si.sent_since(*old(self)).len() as int;
                                    let j = se.sent_since(*old(self)).len() as int;
                                    assert(j == sent.len() - 1);
                                    assert(sent.subrange(i, j) =~= se.sent_since(si)) by {
                                        assert forall|k: int| 0 <= k < j - i implies sent.subrange(i, j)[k] == se.sent_since(si)[k] by {
                                            assert(self.log()[old(self).log().len() + i + k] == se.log()[si.log().len() + k]);
                                        }
                                    }
                                    assert(i > 0) by {
                                        lemma_sent_grows(*old(self), sb, si);
                                    }
                                    assert(evicted(sent.subrange(i, j), max_records));
                                    lemma_sent_grows(*old(self), sb, si);
                                    lemma_sent_grows(sb, si, *self);
                                    lemma_sent_grows(*old(self), si, *self);
                                    assert forall|j: int| 0 <= j < records@.len() implies imported(
                                        self.sent_since(*old(self)),
                                        #[trigger] records@[j],
                                        sanitize,
                                    ) by {
                                        lemma_imported_grows(*old(self), sb, si, records@[j], sanitize);
                                        lemma_imported_grows(*old(self), si, *self, records@[j], sanitize);
                                    }
                                    let sent = self.sent_since(*old(self));
                                    assert(sent[0] == sb.log().last());
                                    assert(sent.last() == self.log().last());
                                }
                                Ok((counts, media))
                            },
                            Err(e) => {
                                let ghost sr = *self;
                                self.rollback();
                                proof {
                                    lemma_sent_grows(*old(self), sb, sr);
                                    lemma_rolled_back(*old(self), sr, *self);
                                }
                                Err(e)
                            },
                        }
                    },
                    Err(e) => {
                        let ghost sr = *self;
                        self.rollback();
                        proof {
                            lemma_sent_grows(*old(self), sb, sr);
                            lemma_rolled_back(*old(self), sr, *self);
                        }
                        Err(e)
                    },
                }
            },
            Err(e) => {
                let ghost sr = *self;
                self.rollback();
                proof {
                    lemma_sent_grows(*old(self), sb, sr);
                    lemma_rolled_back(*old(self), sr, *self);
                }
                Err(e)
            },
        }
    }

    /// [`import_records_evicting`](Self::import_records_evicting) for callers
    /// that leave the media of evicted rows in place.
    pub fn import_records_with_merge(
        &mut self,
        records: &[ClipboardRecord],
        max_records: i32,
        sanitize: Option<ImportSanitize>,
    ) -> (r: Result<(i32, i32, i32), DbError>)
        ensures
            final(self).frame(*old(self)),
            import_violation(records@) matches Some(l) ==> r matches Err(e) && e matches DbError::Invalid(
                m,
            ) && m@ == import_limit_message(l),
            r is Err && import_violation(records@) is None ==> rolled_back(final(self).sent_since(*old(self))),
            r matches Ok((inserted, merged, tags_changed)) ==> {
                &&& import_violation(records@) is None
                &&& inserted >= 0 && merged >= 0
                &&& inserted + merged == kept_upto(records@, records@.len() as int)
                &&& 0 <= tags_changed <= inserted + merged
                &&& tags_changed <= tagged_upto(records@, records@.len() as int)
                &&& import_sent(*old(self), *final(self), records@, sanitize)
                &&& exists|i: int|
                    0 < i <= final(self).sent_since(*old(self)).len() - 1 && #[trigger] evicted(
                        final(self).sent_since(*old(self)).subrange(
                            i,
                            final(self).sent_since(*old(self)).len() - 1,
                        ),
                        max_records,
                    )
            },
    {
        let (counts, _media) = self.import_records_evicting(records, max_records, sanitize)?;
        Ok(counts)
    }

    /// Number of records inserted by an import.
    pub fn import_records(
        &mut self,
        records: &[ClipboardRecord],
        max_records: i32,
        sanitize: Option<ImportSanitize>,
    ) -> (r: Result<i32, DbError>)
        ensures
            final(self).frame(*old(self)),
            import_violation(records@) matches Some(l) ==> r matches Err(e) && e matches DbError::Invalid(
                m,
            ) && m@ == import_limit_message(l),
            r matches Ok(n) ==> 0 <= n <= kept_upto(records@, records@.len() as int),
    {
        let (inserted, _merged, _tags) = self.import_records_with_merge(
            records,
            max_records,
            sanitize,
        )?;
        Ok(inserted)
    }

    fn import_in_tx(&mut self, records: &[ClipboardRecord], sanitize: Option<ImportSanitize>) -> (r:
        Result<(i32, i32, i32), DbError>)
        requires
            records@.len() <= MAX_IMPORT_RECORDS,
        ensures
            final(self).frame(*old(self)),
            r matches Ok((inserted, merged, tags_changed)) ==> {
                &&& inserted >= 0 && merged >= 0
                &&& inserted + merged == kept_upto(records@, records@.len() as int)
                &&& 0 <= tags_changed <= inserted + merged
                &&& tags_changed <= tagged_upto(records@, records@.len() as int)
                &&& forall|j: int|
                    0 <= j < records@.len() ==> imported(
                        final(self).sent_since(*old(self)),
                        #[trigger] records@[j],
                        sanitize,
                    )
            },
    {
        let mut inserted: i32 = 0;
        let mut merged: i32 = 0;
        let mut tags_changed: i32 = 0;
        let mut i: usize = 0;
        while i < records.len()
            invariant
                self.frame(*old(self)),
                0 <= i <= records.len(),
                records@.len() <= MAX_IMPORT_RECORDS,
                inserted >= 0 && merged >= 0,
                inserted + merged == kept_upto(records@, i as int),
                0 <= tags_changed <= inserted + merged,
                tags_changed <= tagged_upto(records@, i as int),
                forall|j: int|
                    0 <= j < i ==> imported(self.sent_since(*old(self)), #[trigger] records@[j], sanitize),
            decreases records.len() - i,
        {
            proof {
                lemma_kept_bounded(records@, i as int);
            }
            let r = &records[i];
            let inc = match prepare_incoming(r, sanitize) {
                Some(inc) => inc,
                None => {
                    proof {
                        assert(tagged_upto(records@, i + 1) == tagged_upto(records@, i as int));
                    }
                    i = i + 1;
                    continue;
                },
            };
            let names = snapshot_names(&r.tags);
            let has_tags = names.len() > 0;
            proof {
                assert(strings_view(names@).len() == names@.len());
                assert(has_tags ==> tagged_upto(records@, i + 1) == tagged_upto(records@, i as int) + 1);
                assert(tagged_upto(records@, i + 1) >= tagged_upto(records@, i as int));
            }
            let ghost s0 = *self;
            let active = self.active_row_for_hash(inc.hash.as_str())?;
            let ghost s1 = *self;
            let ghost rows = choose|rows: Seq<Vec<SqlCell>>|
                s1.log() == s0.log().push(
                    #[trigger] read_of(ACTIVE_ROW_SQL@, seq![SqlValue::Text(inc.hash@)], rows),
                ) && match active {
                    None => rows.len() == 0,
                    Some((id, m)) => rows.len() > 0 && merge_row_is(rows[0]@, id, m),
                };
            let ghost rd = read_of(ACTIVE_ROW_SQL@, seq![SqlValue::Text(incoming_hash(*r))], rows);
            proof {
                assert(s1.log().last() == rd);
                lemma_last_logged(s0, s1);
            }
            let mut changed_now = false;
            match active {
                Some((id, local)) => {
                    let incoming = incoming_fields(r, &inc);
                    let m = merge_import_fields(&local, &incoming);
                    proof {
                        assert(incoming@ == incoming_view(*r, inc));
                    }
                    self.write_merged(id, &m)?;
                    let ghost s2 = *self;
                    merged = merged + 1;
                    let applies = snapshot_applies(has_tags, r.updated_at.as_str(), Some(local.updated_at.as_str()));
                    if applies {
                        changed_now = self.apply_tag_snapshot(id, r, true)?;
                    }
                    proof {
                        lemma_sent_grows(s0, s1, s2);
                        lemma_sent_grows(s0, s2, *self);
                        assert(logged(self.sent_since(s0), rd));
                        assert(sent_run(self.sent_since(s0), MERGED_UPDATE_SQL@, merged_update_spec(id, m)));
                        assert(prepared(*r, inc, sanitize));
                        assert(rows.len() > 0 && merge_row_is(rows[0]@, id, local));
                        assert(m@ == merged_view(local@, incoming_view(*r, inc)));
                        assert(imported(self.sent_since(s0), *r, sanitize));
                    }
                },
                None => {
                    let id = self.insert_imported(r, &inc)?;
                    let ghost s2 = *self;
                    inserted = inserted + 1;
                    let applies = snapshot_applies(has_tags, r.updated_at.as_str(), None);
                    if applies {
                        changed_now = self.apply_tag_snapshot(id, r, true)?;
                    }
                    proof {
                        lemma_sent_grows(s0, s1, s2);
                        lemma_sent_grows(s0, s2, *self);
                        assert(logged(self.sent_since(s0), rd));
                        assert(sent_run(self.sent_since(s0), IMPORTED_INSERT_SQL@, imported_insert_spec(*r, inc)));
                        assert(prepared(*r, inc, sanitize));
                        assert(rows.len() == 0);
                        assert(imported(self.sent_since(s0), *r, sanitize));
                    }
                },
            }
            if changed_now {
                tags_changed = tags_changed + 1;
            }
            proof {
                assert forall|j: int| 0 <= j < i + 1 implies imported(
                    self.sent_since(*old(self)),
                    #[trigger] records@[j],
                    sanitize,
                ) by {
                    lemma_imported_grows(*old(self), s0, *self, records@[j], sanitize);
                }
            }
            i = i + 1;
        }
        Ok((inserted, merged, tags_changed))
    }
}

} // verus!
