//! Rules for record bundles that cross devices (JSON import, WebDAV pull):
//! size limits, the sanitization policy, the field-by-field merge of an
//! incoming copy into an active local row, the export keyset cursor, and the
//! deletion-tombstone decisions.
use vstd::prelude::*;
use vstd::utf8::encode_utf8;

use crate::query::{
    text_lt, text_less, lemma_text_lt_total, lemma_text_lt_transitive, SqlParam, params_view, SqlValue,
    lemma_params_view_push, clamp_page_limit, clamp_spec, RECORD_COLS,
};
use crate::record::{ClipboardRecord, Settings};

verus! {

pub const MAX_IMPORT_RECORDS: usize = 100000;
pub const MAX_IMPORT_TOTAL_BYTES: usize = 67108864;
pub const MAX_IMPORT_CONTENT_BYTES: usize = 16777216;
pub const MAX_IMPORT_HTML_BYTES: usize = 524288;

/// The size gate on an import payload, applied before it is decoded: at
/// most `MAX_IMPORT_TOTAL_BYTES` bytes, whether it was handed over directly
/// or read from a backup file (`from_file`), each with its own message.
pub fn check_import_payload(byte_len: usize, from_file: bool) -> (r: Result<(), String>)
    ensures
        r is Ok <==> byte_len <= MAX_IMPORT_TOTAL_BYTES,
        r matches Err(e) ==> e@ == (if from_file {
            "备份文件过大（上限 64MB）"@
        } else {
            "导入内容过大（上限 64MB）"@
        }),
{
    if byte_len <= MAX_IMPORT_TOTAL_BYTES {
        Ok(())
    } else if from_file {
        Err("备份文件过大（上限 64MB）".to_owned())
    } else {
        Err("导入内容过大（上限 64MB）".to_owned())
    }
}

/// UTF-8 length of a text, in bytes.
pub open spec fn byte_len(s: Seq<char>) -> nat {
    encode_utf8(s).len()
}

pub open spec fn html_bytes(r: ClipboardRecord) -> nat {
    match r.content_html {
        Some(h) => byte_len(h@),
        None => 0,
    }
}

/// Which import limit a bundle breaks.
#[derive(Debug, Clone, Copy, PartialEq, Eq, Structural)]
pub enum ImportLimit {
    TooManyRecords,
    ContentTooLarge,
    HtmlTooLarge,
    TotalTooLarge,
}

/// The first limit broken by `rs[i..]`, given `total` bytes already counted.
pub open spec fn first_violation_from(rs: Seq<ClipboardRecord>, i: int, total: nat) -> Option<
    ImportLimit,
>
    decreases rs.len() - i,
{
    if i < 0 || i >= rs.len() {
        None
    } else {
        let r = rs[i];
        if byte_len(r.content@) > MAX_IMPORT_CONTENT_BYTES {
            Some(ImportLimit::ContentTooLarge)
        } else if html_bytes(r) > MAX_IMPORT_HTML_BYTES {
            Some(ImportLimit::HtmlTooLarge)
        } else if total + html_bytes(r) + byte_len(r.content@) > MAX_IMPORT_TOTAL_BYTES {
            Some(ImportLimit::TotalTooLarge)
        } else {
            first_violation_from(rs, i + 1, total + html_bytes(r) + byte_len(r.content@))
        }
    }
}

/// The limit a bundle breaks, checked record by record in order.
pub open spec fn import_violation(rs: Seq<ClipboardRecord>) -> Option<ImportLimit> {
    if rs.len() > MAX_IMPORT_RECORDS {
        Some(ImportLimit::TooManyRecords)
    } else {
        first_violation_from(rs, 0, 0)
    }
}

pub open spec fn import_limit_message(l: ImportLimit) -> Seq<char> {
    match l {
        ImportLimit::TooManyRecords => "导入记录过多（上限 100000 条）"@,
        ImportLimit::ContentTooLarge => "记录正文过大（单条上限 16 MB）"@,
        ImportLimit::HtmlTooLarge => "记录 HTML 过大（单条上限 512 KB）"@,
        ImportLimit::TotalTooLarge => "导入内容过大（总上限 64 MB）"@,
    }
}

impl ImportLimit {
    /// The user-facing message for this limit.
    pub fn message(&self) -> (s: String)
        ensures
            s@ == import_limit_message(*self),
    {
        match self {
            ImportLimit::TooManyRecords => String::from_str("导入记录过多（上限 100000 条）"),
            ImportLimit::ContentTooLarge => String::from_str("记录正文过大（单条上限 16 MB）"),
            ImportLimit::HtmlTooLarge => String::from_str("记录 HTML 过大（单条上限 512 KB）"),
            ImportLimit::TotalTooLarge => String::from_str("导入内容过大（总上限 64 MB）"),
        }
    }
}

/// Reject bundles that are too large before any row is written: more than
/// 100 000 records, a body over 16 MiB, an HTML blob over 512 KiB, or more
/// than 64 MiB of body and HTML together.
pub fn validate_import_records(records: &[ClipboardRecord]) -> (r: Result<(), String>)
    ensures
        r is Ok <==> import_violation(records@) is None,
        r matches Err(e) ==> import_violation(records@) matches Some(l) && e@
            == import_limit_message(l),
{
    match import_limit(records) {
        None => Ok(()),
        Some(l) => Err(l.message()),
    }
}

/// The limit `records` breaks, if any.
pub fn import_limit(records: &[ClipboardRecord]) -> (r: Option<ImportLimit>)
    ensures
        r == import_violation(records@),
{
    if records.len() > MAX_IMPORT_RECORDS {
        return Some(ImportLimit::TooManyRecords);
    }
    let mut total: usize = 0;
    let mut i: usize = 0;
    while i < records.len()
        invariant
            0 <= i <= records.len(),
            total <= MAX_IMPORT_TOTAL_BYTES,
            records.len() <= MAX_IMPORT_RECORDS,
            first_violation_from(records@, 0, 0) == first_violation_from(
                records@,
                i as int,
                total as nat,
            ),
        decreases records.len() - i,
    {
        let r = &records[i];
        let content_len = r.content.as_str().as_bytes().len();
        if content_len > MAX_IMPORT_CONTENT_BYTES {
            return Some(ImportLimit::ContentTooLarge);
        }
        let html_len: usize = match &r.content_html {
            Some(h) => {
                assert(records@[i as int].content_html == Some(*h));
                h.as_str().as_bytes().len()
            },
            None => 0,
        };
        assert(html_len == html_bytes(records@[i as int]));
        assert(content_len == byte_len(records@[i as int].content@));
        if html_len > MAX_IMPORT_HTML_BYTES {
            return Some(ImportLimit::HtmlTooLarge);
        }
        if total + html_len + content_len > MAX_IMPORT_TOTAL_BYTES {
            return Some(ImportLimit::TotalTooLarge);
        }
        total = total + html_len + content_len;
        i = i + 1;
    }
    None
}

/// Sanitization applied to untrusted bundles: re-run sensitive detection on
/// incoming text, and give sensitive rows a fresh expiry measured from now.
#[derive(Debug, Clone, Copy)]
pub struct ImportSanitize {
    pub recheck_sensitive: bool,
    pub sensitive_auto_expire_seconds: i32,
}

impl ImportSanitize {
    /// The policy the current settings ask for.
    pub fn from_settings(s: &Settings) -> (r: ImportSanitize)
        ensures
            r.recheck_sensitive == s.enable_sensitive_detection,
            r.sensitive_auto_expire_seconds == s.sensitive_auto_expire_seconds,
    {
        ImportSanitize {
            recheck_sensitive: s.enable_sensitive_detection,
            sensitive_auto_expire_seconds: s.sensitive_auto_expire_seconds,
        }
    }
}

/// The state of an active row that an incoming copy of the same record can
/// change when a bundle is merged into the local history.
#[derive(Debug, Clone)]
pub struct MergeFields {
    pub is_favorite: bool,
    pub is_pinned: bool,
    pub copy_count: i32,
    pub updated_at: String,
    pub media_path: Option<String>,
    pub thumb_path: Option<String>,
    pub is_sensitive: bool,
    pub auto_expire_at: Option<String>,
    pub source_device_id: String,
    pub created_at: String,
}

/// Mathematical value of [`MergeFields`].
pub struct MergeView {
    pub fav: bool,
    pub pin: bool,
    pub copies: int,
    pub updated: Seq<char>,
    pub media: Option<Seq<char>>,
    pub thumb: Option<Seq<char>>,
    pub sensitive: bool,
    pub expire: Option<Seq<char>>,
    pub device: Seq<char>,
    pub created: Seq<char>,
}

pub open spec fn opt_text(o: Option<String>) -> Option<Seq<char>> {
    match o {
        Some(s) => Some(s@),
        None => None,
    }
}

impl View for MergeFields {
    type V = MergeView;

    open spec fn view(&self) -> MergeView {
        MergeView {
            fav: self.is_favorite,
            pin: self.is_pinned,
            copies: self.copy_count as int,
            updated: self.updated_at@,
            media: opt_text(self.media_path),
            thumb: opt_text(self.thumb_path),
            sensitive: self.is_sensitive,
            expire: opt_text(self.auto_expire_at),
            device: self.source_device_id@,
            created: self.created_at@,
        }
    }
}

/// Absent or empty.
pub open spec fn blank_opt(o: Option<Seq<char>>) -> bool {
    o is None || o == Some(Seq::<char>::empty())
}

/// A path slot is filled from the incoming copy only while it is empty.
pub open spec fn fill_slot(local: Option<Seq<char>>, incoming: Option<Seq<char>>) -> Option<
    Seq<char>,
> {
    if blank_opt(local) && !blank_opt(incoming) {
        incoming
    } else {
        local
    }
}

/// The row after merging `i` into `l`: favorite, pin and sensitivity are
/// OR'd, the copy count and `updated_at` take the larger value, empty media
/// slots are filled, a sensitive row without expiry adopts the incoming one,
/// and the origin device is the first known creator.
pub open spec fn merged_view(l: MergeView, i: MergeView) -> MergeView {
    MergeView {
        fav: l.fav || i.fav,
        pin: l.pin || i.pin,
        copies: if l.copies < i.copies {
            i.copies
        } else {
            l.copies
        },
        updated: if text_lt(l.updated, i.updated) {
            i.updated
        } else {
            l.updated
        },
        media: fill_slot(l.media, i.media),
        thumb: fill_slot(l.thumb, i.thumb),
        sensitive: l.sensitive || i.sensitive,
        expire: if (l.sensitive || i.sensitive) && blank_opt(l.expire) && i.expire is Some {
            i.expire
        } else {
            l.expire
        },
        device: if i.device.len() > 0 && (l.device.len() == 0 || text_lt(i.created, l.created)) {
            i.device
        } else {
            l.device
        },
        created: l.created,
    }
}

fn is_blank_opt(o: &Option<String>) -> (r: bool)
    ensures
        r == blank_opt(opt_text(*o)),
{
    match o {
        None => true,
        Some(s) => {
            proof {
                if s@.len() == 0 {
                    assert(s@ =~= Seq::<char>::empty());
                }
            }
            s.as_str().is_empty()
        },
    }
}

fn fill_slot_exec(local: &Option<String>, incoming: &Option<String>) -> (r: Option<String>)
    ensures
        opt_text(r) == fill_slot(opt_text(*local), opt_text(*incoming)),
{
    if is_blank_opt(local) && !is_blank_opt(incoming) {
        incoming.clone()
    } else {
        local.clone()
    }
}

/// Merge an incoming copy into the active local row with the same hash.
pub fn merge_import_fields(local: &MergeFields, incoming: &MergeFields) -> (r: MergeFields)
    ensures
        r@ == merged_view(local@, incoming@),
{
    let updated_at = if text_less(local.updated_at.as_str(), incoming.updated_at.as_str()) {
        incoming.updated_at.clone()
    } else {
        local.updated_at.clone()
    };
    let either_sensitive = local.is_sensitive || incoming.is_sensitive;
    let auto_expire_at = if either_sensitive && is_blank_opt(&local.auto_expire_at)
        && incoming.auto_expire_at.is_some() {
        incoming.auto_expire_at.clone()
    } else {
        local.auto_expire_at.clone()
    };
    let source_device_id = if !incoming.source_device_id.as_str().is_empty() && (
    local.source_device_id.as_str().is_empty() || text_less(
        incoming.created_at.as_str(),
        local.created_at.as_str(),
    )) {
        incoming.source_device_id.clone()
    } else {
        local.source_device_id.clone()
    };
    MergeFields {
        is_favorite: local.is_favorite || incoming.is_favorite,
        is_pinned: local.is_pinned || incoming.is_pinned,
        copy_count: if local.copy_count < incoming.copy_count {
            incoming.copy_count
        } else {
            local.copy_count
        },
        updated_at,
        media_path: fill_slot_exec(&local.media_path, &incoming.media_path),
        thumb_path: fill_slot_exec(&local.thumb_path, &incoming.thumb_path),
        is_sensitive: either_sensitive,
        auto_expire_at,
        source_device_id,
        created_at: local.created_at.clone(),
    }
}

/// Merging the same incoming copy twice changes nothing the second time, so a
/// re-pulled bundle is a no-op.
pub proof fn lemma_merge_idempotent(l: MergeView, i: MergeView)
    ensures
        merged_view(merged_view(l, i), i) == merged_view(l, i),
{
    lemma_text_lt_total(i.updated, i.updated);
    lemma_text_lt_total(l.updated, i.updated);
}

/// A merge never downgrades the local row: flags stay set, counts and
/// timestamps never move backwards, filled media slots are kept, and a known
/// origin device is never erased.
pub proof fn lemma_merge_never_downgrades(l: MergeView, i: MergeView)
    ensures
        l.fav ==> merged_view(l, i).fav,
        l.pin ==> merged_view(l, i).pin,
        l.sensitive ==> merged_view(l, i).sensitive,
        i.sensitive ==> merged_view(l, i).sensitive,
        merged_view(l, i).copies >= l.copies,
        merged_view(l, i).copies >= i.copies,
        !text_lt(merged_view(l, i).updated, l.updated),
        !text_lt(merged_view(l, i).updated, i.updated),
        !blank_opt(l.media) ==> merged_view(l, i).media == l.media,
        !blank_opt(l.thumb) ==> merged_view(l, i).thumb == l.thumb,
        !blank_opt(l.expire) ==> merged_view(l, i).expire == l.expire,
        l.device.len() > 0 ==> merged_view(l, i).device.len() > 0,
        l.device.len() > 0 && !text_lt(i.created, l.created) ==> merged_view(l, i).device
            == l.device,
        l.device.len() == 0 ==> merged_view(l, i).device == i.device,
        merged_view(l, i).created == l.created,
{
    lemma_text_lt_total(l.updated, i.updated);
    lemma_text_lt_total(i.updated, i.updated);
    lemma_text_lt_total(l.updated, l.updated);
}

/// Keyset cursor for export paging: `(is_pinned, updated_at, id)` is the
/// export order, so pages never skip or repeat a row.
#[derive(Debug, Clone)]
pub struct ExportCursor {
    pub is_pinned: bool,
    pub updated_at: String,
    pub id: i64,
}

pub open spec fn export_cursor_sql() -> Seq<char> {
    " AND (is_pinned < ? OR (is_pinned = ? AND (updated_at < ? OR (updated_at = ? AND id < ?))))"@
}

pub open spec fn export_page_sql(has_cursor: bool) -> Seq<char> {
    "SELECT "@ + RECORD_COLS@ + " FROM records WHERE is_trashed = 0"@ + (if has_cursor {
        export_cursor_sql()
    } else {
        Seq::empty()
    }) + " ORDER BY is_pinned DESC, updated_at DESC, id DESC LIMIT ?"@
}

pub open spec fn export_page_params(limit: i32, cursor: Option<&ExportCursor>) -> Seq<SqlValue> {
    (match cursor {
        Some(c) => {
            let pin: int = if c.is_pinned { 1 } else { 0 };
            seq![
                SqlValue::Int(pin),
                SqlValue::Int(pin),
                SqlValue::Text(c.updated_at@),
                SqlValue::Text(c.updated_at@),
                SqlValue::Int(c.id as int),
            ]
        },
        None => Seq::empty(),
    }) + seq![SqlValue::Int(clamp_spec(limit) as int)]
}

/// SQL and parameters of one export page: active rows with full content,
/// strictly after `cursor` in `(is_pinned DESC, updated_at DESC, id DESC)`.
pub fn build_export_page_query(limit: i32, cursor: Option<&ExportCursor>) -> (r: (
    String,
    Vec<SqlParam>,
))
    ensures
        r.0@ == export_page_sql(cursor is Some),
        params_view(r.1@) == export_page_params(limit, cursor),
{
    let mut sql = String::new();
    sql.append("SELECT ");
    sql.append(RECORD_COLS);
    sql.append(" FROM records WHERE is_trashed = 0");
    let mut params: Vec<SqlParam> = Vec::new();
    let ghost s1 = sql@;
    if let Some(c) = cursor {
        sql.append(
            " AND (is_pinned < ? OR (is_pinned = ? AND (updated_at < ? OR (updated_at = ? AND id < ?))))",
        );
        let pin: i64 = if c.is_pinned { 1 } else { 0 };
        params.push(SqlParam::Int(pin));
        params.push(SqlParam::Int(pin));
        params.push(SqlParam::Text(c.updated_at.clone()));
        params.push(SqlParam::Text(c.updated_at.clone()));
        params.push(SqlParam::Int(c.id));
    }
    let ghost s2 = sql@;
    let ghost p2 = params_view(params@);
    assert(p2 =~= export_page_params(limit, cursor).drop_last());
    sql.append(" ORDER BY is_pinned DESC, updated_at DESC, id DESC LIMIT ?");
    let lim = clamp_page_limit(limit);
    let ghost q = params@;
    let p = SqlParam::Int(lim as i64);
    params.push(p);
    proof {
        lemma_params_view_push(q, p);
        assert(params_view(params@) =~= export_page_params(limit, cursor));
        assert(sql@ =~= export_page_sql(cursor is Some));
    }
    (sql, params)
}

/// What a pulled deletion tombstone does to the local history.
#[derive(Debug, Clone, Copy, PartialEq, Eq, Structural)]
pub enum TombstoneAction {
    /// The newest active copy is older than the deletion: move it to the trash.
    Trash,
    /// A local copy was made after the deletion (a deliberate re-copy): keep it.
    KeepNewer,
    /// No active local copy: only remember the tombstone.
    Remember,
}

pub open spec fn tombstone_action_spec(local_updated: Option<Seq<char>>, deleted_at: Seq<char>) -> TombstoneAction {
    match local_updated {
        Some(u) => if text_lt(u, deleted_at) {
            TombstoneAction::Trash
        } else {
            TombstoneAction::KeepNewer
        },
        None => TombstoneAction::Remember,
    }
}

/// Newer wins: an active copy updated strictly before `deleted_at` is
/// trashed, a copy updated at or after it is kept.
pub fn tombstone_action(local_updated: Option<&str>, deleted_at: &str) -> (r: TombstoneAction)
    ensures
        r == tombstone_action_spec(
            match local_updated {
                Some(u) => Some(u@),
                None => None,
            },
            deleted_at@,
        ),
{
    match local_updated {
        Some(u) => if text_less(u, deleted_at) {
            TombstoneAction::Trash
        } else {
            TombstoneAction::KeepNewer
        },
        None => TombstoneAction::Remember,
    }
}

/// The later of two timestamps (text order).
pub open spec fn later(a: Seq<char>, b: Seq<char>) -> Seq<char> {
    if text_lt(a, b) {
        b
    } else {
        a
    }
}

/// The acknowledgement watermark after applying a tombstone: the newest
/// `deleted_at` seen so far.
pub open spec fn advance_ack_spec(ack: Option<Seq<char>>, deleted_at: Seq<char>) -> Seq<char> {
    match ack {
        Some(a) => if !text_lt(a, deleted_at) {
            a
        } else {
            deleted_at
        },
        None => deleted_at,
    }
}

/// Advance the watermark past `deleted_at`.
pub fn advance_ack(ack: Option<String>, deleted_at: &str) -> (r: String)
    ensures
        r@ == advance_ack_spec(opt_text(ack), deleted_at@),
{
    match ack {
        Some(a) => if !text_less(a.as_str(), deleted_at) {
            a
        } else {
            deleted_at.to_owned()
        },
        None => deleted_at.to_owned(),
    }
}

/// The watermark never moves backwards and always covers the tombstone just
/// applied.
pub proof fn lemma_ack_monotone(ack: Option<Seq<char>>, deleted_at: Seq<char>)
    ensures
        !text_lt(advance_ack_spec(ack, deleted_at), deleted_at),
        ack matches Some(a) ==> !text_lt(advance_ack_spec(ack, deleted_at), a),
{
    lemma_text_lt_total(deleted_at, deleted_at);
    if let Some(a) = ack {
        lemma_text_lt_total(a, deleted_at);
        lemma_text_lt_total(a, a);
    }
}

/// A stored tombstone after another deletion of the same hash is folded in:
/// the later `deleted_at`, and sensitive if either was.
pub open spec fn tombstone_fold(old: Option<(Seq<char>, bool)>, deleted_at: Seq<char>, sensitive: bool) -> (
    Seq<char>,
    bool,
) {
    match old {
        Some((d, s)) => (later(d, deleted_at), s || sensitive),
        None => (deleted_at, sensitive),
    }
}

/// Fold a deletion into the stored tombstone of its hash.
pub fn fold_tombstone(old: Option<(String, bool)>, deleted_at: &str, sensitive: bool) -> (r: (
    String,
    bool,
))
    ensures
        (r.0@, r.1) == tombstone_fold(
            match old {
                Some((d, s)) => Some((d@, s)),
                None => None,
            },
            deleted_at@,
            sensitive,
        ),
{
    match old {
        Some((d, s)) => {
            let keep = !text_less(d.as_str(), deleted_at);
            (if keep { d } else { deleted_at.to_owned() }, s || sensitive)
        },
        None => (deleted_at.to_owned(), sensitive),
    }
}

/// Folding deletions into a tombstone is order-independent and idempotent,
/// so conflicting writes from several devices converge.
pub proof fn lemma_tombstone_fold_converges(d0: Seq<char>, s0: bool, d1: Seq<char>, s1: bool, d2: Seq<char>, s2: bool)
    ensures
        tombstone_fold(Some(tombstone_fold(Some((d0, s0)), d1, s1)), d2, s2) == tombstone_fold(
            Some(tombstone_fold(Some((d0, s0)), d2, s2)),
            d1,
            s1,
        ),
        tombstone_fold(Some(tombstone_fold(Some((d0, s0)), d1, s1)), d1, s1) == tombstone_fold(
            Some((d0, s0)),
            d1,
            s1,
        ),
{
    lemma_text_lt_total(d0, d1);
    lemma_text_lt_total(d0, d2);
    lemma_text_lt_total(d1, d2);
    lemma_text_lt_total(d1, d1);
    lemma_text_lt_transitive(d0, d1, d2);
    lemma_text_lt_transitive(d0, d2, d1);
    lemma_text_lt_transitive(d1, d0, d2);
    lemma_text_lt_transitive(d1, d2, d0);
    lemma_text_lt_transitive(d2, d0, d1);
    lemma_text_lt_transitive(d2, d1, d0);
}

/// The watermark after applying `tombstones[..n]`, starting from `ack`.
pub open spec fn ack_after(ack: Option<Seq<char>>, tombstones: Seq<(String, String)>, n: int) -> Option<
    Seq<char>,
>
    decreases n,
{
    if n <= 0 || n > tombstones.len() {
        ack
    } else {
        Some(advance_ack_spec(ack_after(ack, tombstones, n - 1), tombstones[n - 1].1@))
    }
}

/// The watermark after applying every tombstone of a pull.
pub fn fold_ack(ack: Option<String>, tombstones: &[(String, String)]) -> (r: Option<String>)
    ensures
        opt_text(r) == ack_after(opt_text(ack), tombstones@, tombstones@.len() as int),
{
    let ghost start = opt_text(ack);
    let mut cur = ack;
    let mut i: usize = 0;
    while i < tombstones.len()
        invariant
            0 <= i <= tombstones.len(),
            opt_text(cur) == ack_after(start, tombstones@, i as int),
        decreases tombstones.len() - i,
    {
        cur = Some(advance_ack(cur, tombstones[i].1.as_str()));
        i = i + 1;
    }
    cur
}

/// "Not before" is transitive.
proof fn lemma_not_before_transitive(a: Seq<char>, b: Seq<char>, c: Seq<char>)
    requires
        !text_lt(a, b),
        !text_lt(b, c),
    ensures
        !text_lt(a, c),
{
    lemma_text_lt_total(a, b);
    lemma_text_lt_total(b, c);
    lemma_text_lt_total(a, c);
    lemma_text_lt_transitive(c, b, a);
}

/// After a pull the watermark is at or past every applied tombstone and
/// never before the watermark the device started with.
pub proof fn lemma_ack_covers_pull(ack: Option<Seq<char>>, tombstones: Seq<(String, String)>, n: int)
    requires
        0 < n <= tombstones.len(),
    ensures
        ack_after(ack, tombstones, n) is Some,
        forall|j: int|
            0 <= j < n ==> !text_lt(ack_after(ack, tombstones, n)->0, #[trigger] tombstones[j].1@),
        ack matches Some(a) ==> !text_lt(ack_after(ack, tombstones, n)->0, a),
    decreases n,
{
    let prev = ack_after(ack, tombstones, n - 1);
    let cur = ack_after(ack, tombstones, n)->0;
    lemma_ack_monotone(prev, tombstones[n - 1].1@);
    if n > 1 {
        lemma_ack_covers_pull(ack, tombstones, n - 1);
        let p = prev->0;
        assert forall|j: int| 0 <= j < n implies !text_lt(cur, #[trigger] tombstones[j].1@) by {
            if j < n - 1 {
                lemma_not_before_transitive(cur, p, tombstones[j].1@);
            }
        }
        if let Some(a) = ack {
            lemma_not_before_transitive(cur, p, a);
        }
    }
}

} // verus!
