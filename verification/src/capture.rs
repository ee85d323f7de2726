//! Storing captured clipboard content: re-copy dedup, fresh inserts, the
//! list-shape record handed back to the UI, and capacity eviction.
use vstd::prelude::*;

use crate::bundle::{
    flag_param, flag_value, opt_int_param, opt_int_value, opt_text_value, rfc3339_in,
};
use crate::content::{content_type_name, ContentType};
use crate::db::{ClipboardDb, reads_only, count_runs, lemma_count_push, lemma_count_since, lemma_sent_grows, logged, lemma_last_logged, text_int, is_run, lemma_last_run, never_runs, read_of, sent_run};
use crate::query::{params_view, SqlParam, SqlValue, RECORD_COLS, RECORD_COLS_LIST};
use crate::pipeline::auto_tags_apply;
use crate::record::{ClipboardRecord, Settings};
use crate::records::{abs_of, abs_opt, opt_view, row_shaped};
use crate::sqlite::{exec, query, query_int, DbError, runs, Sent, SqlCell, first_int_spec, first_text_spec};
use crate::text::{chars_of, string_of, take_chars};



verus! {

/// Image metadata stored with an image record.
#[derive(Debug, Clone)]
pub struct ImageMeta {
    pub media_path: String,
    pub thumb_path: String,
    pub width: i32,
    pub height: i32,
}

/// Characters of content kept in list rows.
pub const LIST_CONTENT_MAX: usize = 400;

/// The list-shape record of a just-inserted capture: content cut to 400
/// characters, full character count in `content_len`, fresh flags, created
/// and updated at `now`.
pub open spec fn inserted_record_spec(
    r: ClipboardRecord,
    id: i64,
    content: Seq<char>,
    content_type: ContentType,
    hash: Seq<char>,
    is_sensitive: bool,
    auto_expire_at: Option<Seq<char>>,
    source_app: Seq<char>,
    source_window: Seq<char>,
    source_name: Seq<char>,
    source_device_id: Seq<char>,
    image: Option<ImageMeta>,
    now: Seq<char>,
    prefix: Seq<char>,
) -> bool {
    &&& r.id == id
    &&& r.content@ == (if content.len() <= LIST_CONTENT_MAX {
        content
    } else {
        content.take(LIST_CONTENT_MAX as int)
    })
    &&& r.content_type@ == content_type_name(content_type)
    &&& r.source_app@ == source_app
    &&& r.source_window@ == source_window
    &&& r.source_name@ == source_name
    &&& r.source_device_id@ == source_device_id
    &&& r.hash@ == hash
    &&& r.copy_count == 0
    &&& !r.is_favorite && !r.is_pinned && !r.is_trashed
    &&& r.is_sensitive == is_sensitive
    &&& opt_view(r.auto_expire_at) == auto_expire_at
    &&& r.created_at@ == now && r.updated_at@ == now
    &&& r.tags@.len() == 0 && r.tag_colors@.len() == 0
    &&& r.content_html is None
    &&& match image {
        Some(img) => {
            &&& opt_view(r.media_path) == Some(img.media_path@)
            &&& opt_view(r.thumb_path) == Some(img.thumb_path@)
            &&& r.width == Some(img.width) && r.height == Some(img.height)
        },
        None => r.media_path is None && r.thumb_path is None && r.width is None && r.height
            is None,
    }
    &&& opt_view(r.media_abs) == abs_of(prefix, opt_view(r.media_path))
    &&& opt_view(r.thumb_abs) == abs_of(prefix, opt_view(r.thumb_path))
    &&& r.content_len == Some(
        if content.len() <= i32::MAX {
            content.len() as i32
        } else {
            i32::MAX
        },
    )
    &&& r.alias@.len() == 0
}

/// The record of a fresh capture, at some creation stamp and expiry; its
/// tags are whatever auto-tagging linked.
pub open spec fn captured_record(
    r: ClipboardRecord,
    id: i64,
    content: Seq<char>,
    content_type: ContentType,
    hash: Seq<char>,
    is_sensitive: bool,
    source_app: Seq<char>,
    source_window: Seq<char>,
    source_name: Seq<char>,
    source_device_id: Seq<char>,
    image: Option<ImageMeta>,
    prefix: Seq<char>,
) -> bool {
    exists|base: ClipboardRecord, stamp: Seq<char>, expiry: Option<Seq<char>>|
        #[trigger] inserted_record_spec(
            base,
            id,
            content,
            content_type,
            hash,
            is_sensitive,
            expiry,
            source_app,
            source_window,
            source_name,
            source_device_id,
            image,
            stamp,
            prefix,
        ) && r == (ClipboardRecord { tags: r.tags, ..base })
}

/// The insert of a fresh capture (copy count 0).
pub const NEW_ROW_SQL: &'static str = "INSERT INTO records (content, content_type, source_app, source_window, source_name, source_device_id, hash, copy_count, is_sensitive, auto_expire_at, created_at, updated_at, media_path, thumb_path, width, height, content_html, content_len)
             VALUES (?, ?, ?, ?, ?, ?, ?, 0, ?, ?, ?, ?, ?, ?, ?, ?, ?, ?)";

/// Values bound by [`NEW_ROW_SQL`]: created and updated at `now`, the
/// character count last.
pub open spec fn new_row_spec(
    content: Seq<char>,
    content_type: ContentType,
    hash: Seq<char>,
    is_sensitive: bool,
    auto_expire_at: Option<String>,
    source_app: Seq<char>,
    source_window: Seq<char>,
    source_name: Seq<char>,
    source_device_id: Seq<char>,
    media_path: Option<String>,
    thumb_path: Option<String>,
    width: Option<i32>,
    height: Option<i32>,
    content_html: Option<Seq<char>>,
    now: Seq<char>,
) -> Seq<SqlValue> {
    seq![
        SqlValue::Text(content),
        SqlValue::Text(content_type_name(content_type)),
        SqlValue::Text(source_app),
        SqlValue::Text(source_window),
        SqlValue::Text(source_name),
        SqlValue::Text(source_device_id),
        SqlValue::Text(hash),
        flag_value(is_sensitive),
        opt_text_value(auto_expire_at),
        SqlValue::Text(now),
        SqlValue::Text(now),
        opt_text_value(media_path),
        opt_text_value(thumb_path),
        opt_int_value(width),
        opt_int_value(height),
        match content_html {
            Some(h) => SqlValue::Text(h),
            None => SqlValue::Null,
        },
        SqlValue::Int((content.len() as i64) as int),
    ]
}

pub fn new_row_params(
    content: &str,
    content_type: &ContentType,
    hash: &str,
    is_sensitive: bool,
    auto_expire_at: &Option<String>,
    source_app: &str,
    source_window: &str,
    source_name: &str,
    source_device_id: &str,
    media_path: &Option<String>,
    thumb_path: &Option<String>,
    width: Option<i32>,
    height: Option<i32>,
    content_html: Option<&str>,
    now: &str,
) -> (p: Vec<SqlParam>)
    ensures
        params_view(p@) == new_row_spec(
            content@,
            *content_type,
            hash@,
            is_sensitive,
            *auto_expire_at,
            source_app@,
            source_window@,
            source_name@,
            source_device_id@,
            *media_path,
            *thumb_path,
            width,
            height,
            match content_html {
                Some(h) => Some(h@),
                None => None,
            },
            now@,
        ),
{
    let content_len = chars_of(content).len();
    let mut params: Vec<SqlParam> = Vec::new();
    params.push(SqlParam::Text(content.to_owned()));
    params.push(SqlParam::Text(content_type.as_str().to_owned()));
    params.push(SqlParam::Text(source_app.to_owned()));
    params.push(SqlParam::Text(source_window.to_owned()));
    params.push(SqlParam::Text(source_name.to_owned()));
    params.push(SqlParam::Text(source_device_id.to_owned()));
    params.push(SqlParam::Text(hash.to_owned()));
    params.push(flag_param(is_sensitive));
    params.push(crate::bundle::opt_param(auto_expire_at));
    params.push(SqlParam::Text(now.to_owned()));
    params.push(SqlParam::Text(now.to_owned()));
    params.push(crate::bundle::opt_param(media_path));
    params.push(crate::bundle::opt_param(thumb_path));
    params.push(opt_int_param(width));
    params.push(opt_int_param(height));
    params.push(
        match content_html {
            Some(h) => SqlParam::Text(h.to_owned()),
            None => SqlParam::Null,
        },
    );
    params.push(SqlParam::Int(content_len as i64));
    assert(params_view(params@) =~= new_row_spec(
        content@,
        *content_type,
        hash@,
        is_sensitive,
        *auto_expire_at,
        source_app@,
        source_window@,
        source_name@,
        source_device_id@,
        *media_path,
        *thumb_path,
        width,
        height,
        match content_html {
            Some(h) => Some(h@),
            None => None,
        },
        now@,
    ));
    params
}

/// The refresh of a re-copied row: new time stamp and source.
pub const RECOPY_SQL: &'static str = "UPDATE records SET updated_at = ?, source_app = ?, source_window = ?, source_name = ? WHERE id = ?";

/// The probe of an active row with a hash (the most recently updated one).
pub const DUPLICATE_SQL: &'static str = "SELECT id FROM records WHERE hash = ? AND is_trashed = 0
             ORDER BY updated_at DESC LIMIT 1";

/// Bound values of [`RECOPY_SQL`].
pub open spec fn recopy_values(now: Seq<char>, app: Seq<char>, window: Seq<char>, name: Seq<char>, id: int) -> Seq<SqlValue> {
    seq![
        SqlValue::Text(now),
        SqlValue::Text(app),
        SqlValue::Text(window),
        SqlValue::Text(name),
        SqlValue::Int(id),
    ]
}

/// `r` is the listed `row` refreshed by a re-copy at `now` from the given
/// source: stamp and source replaced; content, copy count, origin device,
/// flags and tags kept.
pub open spec fn refreshed(
    row: ClipboardRecord,
    r: ClipboardRecord,
    now: Seq<char>,
    app: Seq<char>,
    window: Seq<char>,
    name: Seq<char>,
) -> bool {
    &&& r == (ClipboardRecord {
        updated_at: r.updated_at,
        source_app: r.source_app,
        source_window: r.source_window,
        source_name: r.source_name,
        ..row
    })
    &&& r.updated_at@ == now && r.source_app@ == app && r.source_window@ == window && r.source_name@
        == name
}

/// A listed row as a re-copy at `now` from the given source leaves it.
pub fn refresh_record(
    row: ClipboardRecord,
    now: &str,
    source_app: &str,
    source_window: &str,
    source_name: &str,
) -> (r: ClipboardRecord)
    ensures
        refreshed(row, r, now@, source_app@, source_window@, source_name@),
{
    ClipboardRecord {
        updated_at: now.to_owned(),
        source_app: source_app.to_owned(),
        source_window: source_window.to_owned(),
        source_name: source_name.to_owned(),
        ..row
    }
}

/// Rich text as a view.
pub open spec fn html_view(h: Option<&str>) -> Option<Seq<char>> {
    match h {
        Some(t) => Some(t@),
        None => None,
    }
}

/// Since `prev`, `cur` refreshed the active row `id` for a re-copy: the
/// returned `rec` is that row refreshed, the refresh (and the new rich text,
/// when given) was sent, and no tag was linked and no row inserted.
pub open spec fn recopied(
    prev: ClipboardDb,
    cur: ClipboardDb,
    rec: ClipboardRecord,
    id: i64,
    app: Seq<char>,
    window: Seq<char>,
    name: Seq<char>,
    html: Option<Seq<char>>,
) -> bool {
    let sent = cur.sent_since(prev);
    &&& rec.id == id
    &&& exists|row: ClipboardRecord, now: Seq<char>|
        row.id == id && #[trigger] refreshed(row, rec, now, app, window, name) && sent_run(
            sent,
            RECOPY_SQL@,
            recopy_values(now, app, window, name, id as int),
        )
    &&& match html {
        Some(h) => sent_run(sent, RECOPY_HTML_SQL@, text_int(h, id as int)),
        None => count_runs(sent, RECOPY_HTML_SQL@) == 0,
    }
    &&& count_runs(sent, crate::tagdb::RECORD_LINK_SQL@) == 0
    &&& count_runs(sent, NEW_ROW_SQL@) == 0
}

/// The refresh of a re-copied row's rich text.
pub const RECOPY_HTML_SQL: &'static str = "UPDATE records SET content_html = ? WHERE id = ?";

pub fn recopy_params(now: &str, source_app: &str, source_window: &str, source_name: &str, id: i64) -> (p:
    Vec<SqlParam>)
    ensures
        params_view(p@) == seq![
            SqlValue::Text(now@),
            SqlValue::Text(source_app@),
            SqlValue::Text(source_window@),
            SqlValue::Text(source_name@),
            SqlValue::Int(id as int),
        ],
{
    let mut up: Vec<SqlParam> = Vec::new();
    up.push(SqlParam::Text(now.to_owned()));
    up.push(SqlParam::Text(source_app.to_owned()));
    up.push(SqlParam::Text(source_window.to_owned()));
    up.push(SqlParam::Text(source_name.to_owned()));
    up.push(SqlParam::Int(id));
    assert(params_view(up@) =~= seq![
        SqlValue::Text(now@),
        SqlValue::Text(source_app@),
        SqlValue::Text(source_window@),
        SqlValue::Text(source_name@),
        SqlValue::Int(id as int),
    ]);
    up
}

/// `[text, id]` as bound values.
pub fn text_id_params(t: &str, id: i64) -> (p: Vec<SqlParam>)
    ensures
        params_view(p@) == seq![SqlValue::Text(t@), SqlValue::Int(id as int)],
{
    let mut p: Vec<SqlParam> = Vec::new();
    p.push(SqlParam::Text(t.to_owned()));
    p.push(SqlParam::Int(id));
    assert(params_view(p@) =~= seq![SqlValue::Text(t@), SqlValue::Int(id as int)]);
    p
}

/// `[id]` as bound values.
pub fn id_param(id: i64) -> (p: Vec<SqlParam>)
    ensures
        params_view(p@) == seq![SqlValue::Int(id as int)],
{
    let mut p: Vec<SqlParam> = Vec::new();
    p.push(SqlParam::Int(id));
    assert(params_view(p@) =~= seq![SqlValue::Int(id as int)]);
    p
}

/// Whether any row, active or trashed, has hash `?`.
pub const HASH_EXISTS_SQL: &'static str = "SELECT 1 FROM records WHERE hash = ? LIMIT 1";

/// The paste count of an active record.
pub const BUMP_COPY_SQL: &'static str = "UPDATE records SET copy_count = copy_count + 1 WHERE id = ? AND is_trashed = 0";

/// Whether `active` rows exceed `max_records` (at least one row is always
/// allowed).
pub fn exceeds_capacity(active: i64, max_records: i32) -> (r: bool)
    ensures
        r == (active > (if max_records < 1 { 1 } else { max_records as int })),
{
    let max: i64 = if max_records < 1 { 1 } else { max_records as i64 };
    active > max
}

/// The image metadata of a capture, by value.
pub open spec fn image_view(image: Option<&ImageMeta>) -> Option<ImageMeta> {
    match image {
        Some(i) => Some(*i),
        None => None,
    }
}

/// Media paths and size a capture's image gives its row.
pub open spec fn media_of(image: Option<ImageMeta>) -> (Option<String>, Option<String>, Option<i32>, Option<i32>) {
    match image {
        Some(img) => (Some(img.media_path), Some(img.thumb_path), Some(img.width), Some(img.height)),
        None => (None, None, None, None),
    }
}

/// Bound values of the insert of a fresh capture.
pub open spec fn capture_values(
    content: Seq<char>,
    content_type: ContentType,
    hash: Seq<char>,
    is_sensitive: bool,
    auto_expire_at: Option<String>,
    source_app: Seq<char>,
    source_window: Seq<char>,
    source_name: Seq<char>,
    source_device_id: Seq<char>,
    image: Option<ImageMeta>,
    content_html: Option<Seq<char>>,
    now: Seq<char>,
) -> Seq<SqlValue> {
    let m = media_of(image);
    new_row_spec(
        content,
        content_type,
        hash,
        is_sensitive,
        auto_expire_at,
        source_app,
        source_window,
        source_name,
        source_device_id,
        m.0,
        m.1,
        m.2,
        m.3,
        content_html,
        now,
    )
}

/// A re-copy found the active row `id` by its hash, and `prev` to `cur`
/// refreshed it as [`recopied`] says, inserting nothing.
pub proof fn lemma_recopied_after_read(
    prev: ClipboardDb,
    mid: ClipboardDb,
    cur: ClipboardDb,
    rec: ClipboardRecord,
    id: i64,
    app: Seq<char>,
    window: Seq<char>,
    name: Seq<char>,
    html: Option<Seq<char>>,
)
    requires
        mid.frame(prev),
        cur.frame(mid),
        reads_only(prev, mid),
        recopied(mid, cur, rec, id, app, window, name, html),
    ensures
        recopied(prev, cur, rec, id, app, window, name, html),
{
    lemma_sent_grows(prev, mid, cur);
    let (row, now) = choose|row: ClipboardRecord, now: Seq<char>|
        row.id == id && #[trigger] refreshed(row, rec, now, app, window, name) && sent_run(
            cur.sent_since(mid),
            RECOPY_SQL@,
            recopy_values(now, app, window, name, id as int),
        );
    assert(sent_run(cur.sent_since(prev), RECOPY_SQL@, recopy_values(now, app, window, name, id as int)));
    if let Some(h) = html {
        assert(sent_run(cur.sent_since(prev), RECOPY_HTML_SQL@, text_int(h, id as int)));
    }
    let ls = seq![crate::tagdb::RECORD_LINK_SQL@, NEW_ROW_SQL@, RECOPY_HTML_SQL@];
    assert forall|j: int| 0 <= j < 3 implies count_runs(cur.sent_since(prev), #[trigger] ls[j]) == count_runs(cur.sent_since(mid), ls[j]) by {
        lemma_count_since(prev, cur, ls[j]);
        lemma_count_since(mid, cur, ls[j]);
    }
}

/// Since `prev`, `cur` stored a capture and returned `(id, fresh, rec)`:
/// the active row with the capture's hash was looked up first; a re-copy
/// (`!fresh`) refreshed that row and inserted nothing; otherwise the capture
/// was inserted as row `id` with the given fields and this device's id, at
/// one stamp, expiring only when sensitive with positive seconds, and the
/// returned record is that row.
pub open spec fn stored_capture(
    prev: ClipboardDb,
    cur: ClipboardDb,
    id: i64,
    fresh: bool,
    rec: ClipboardRecord,
    content: Seq<char>,
    content_type: ContentType,
    hash: Seq<char>,
    is_sensitive: bool,
    expire_seconds: i32,
    app: Seq<char>,
    window: Seq<char>,
    name: Seq<char>,
    settings: Settings,
    image: Option<ImageMeta>,
    html: Option<Seq<char>>,
) -> bool {
    let sent = cur.sent_since(prev);
    &&& rec.id == id
    &&& sent.len() > 0
    &&& exists|rows: Seq<Vec<SqlCell>>|
        sent[0] == #[trigger] read_of(DUPLICATE_SQL@, seq![SqlValue::Text(hash)], rows) && (fresh
            <==> first_int_spec(rows) is None) && (!fresh ==> first_int_spec(rows) == Some(id))
    &&& !fresh ==> recopied(prev, cur, rec, id, app, window, name, html)
    &&& fresh ==> sent.len() > 2 && sent[2] == Sent::Rowid(id) && exists|now: Seq<char>, exp: Option<String>|
        (exp is Some <==> is_sensitive && expire_seconds > 0) && is_run(
            sent[1],
            NEW_ROW_SQL@,
            #[trigger] capture_values(
                content,
                content_type,
                hash,
                is_sensitive,
                exp,
                app,
                window,
                name,
                settings.webdav_device_id@,
                image,
                html,
                now,
            ),
        )
    &&& fresh ==> captured_record(
        rec,
        id,
        content,
        content_type,
        hash,
        is_sensitive,
        app,
        window,
        name,
        settings.webdav_device_id@,
        image,
        prev.media_prefix_view(),
    )
    &&& fresh && !auto_tags_apply(settings) ==> rec.tags@.len() == 0
    &&& fresh && auto_tags_apply(settings) ==> tagged_capture(sent, id, rec, content, content_type, settings)
    &&& fresh ==> rec.is_sensitive == is_sensitive && rec.hash@ == hash && rec.copy_count == 0 && (
    rec.auto_expire_at is Some <==> is_sensitive && expire_seconds > 0) && rec.content_type@
        == content_type_name(content_type)
}

/// What a fresh capture's auto-tagging sent (links of every matched name,
/// then the read-back of the record's tag names) between `si` and `st`
/// stays sent from `prev` on.
pub open spec fn tagged_capture(
    sent: Seq<Sent>,
    id: i64,
    rec: ClipboardRecord,
    content: Seq<char>,
    content_type: ContentType,
    settings: Settings,
) -> bool {
    let names = crate::tagdb::matched_upto(
        settings.auto_tag_rules@,
        crate::text::lowercase(content),
        content_type,
        settings.auto_tag_rules@.len() as int,
    );
    &&& forall|k: int| 0 <= k < names.len() ==> crate::tagdb::auto_linked(sent, id, #[trigger] names[k])
    &&& exists|rows: Seq<Vec<SqlCell>>|
        #[trigger] logged(
            sent,
            read_of(crate::bundle::RECORD_TAG_NAMES_SQL@, seq![SqlValue::Int(id as int)], rows),
        ) && crate::bundle::strings_view(rec.tags@) == crate::bundle::first_texts(rows)
}

/// Auto-tagging sent between `si` and `st` is sent between `prev` and `cur`.
pub proof fn lemma_tagged_capture_grows(
    prev: ClipboardDb,
    si: ClipboardDb,
    st: ClipboardDb,
    cur: ClipboardDb,
    id: i64,
    rec: ClipboardRecord,
    content: Seq<char>,
    content_type: ContentType,
    settings: Settings,
)
    requires
        si.frame(prev),
        st.frame(si),
        cur.frame(st),
        auto_tags_apply(settings) ==> tagged_capture(st.sent_since(si), id, rec, content, content_type, settings),
    ensures
        auto_tags_apply(settings) ==> tagged_capture(cur.sent_since(prev), id, rec, content, content_type, settings),
{
    if auto_tags_apply(settings) {
        lemma_sent_grows(prev, si, st);
        lemma_sent_grows(prev, st, cur);
        let names = crate::tagdb::matched_upto(
            settings.auto_tag_rules@,
            crate::text::lowercase(content),
            content_type,
            settings.auto_tag_rules@.len() as int,
        );
        assert forall|k: int| 0 <= k < names.len() implies crate::tagdb::auto_linked(
            cur.sent_since(prev),
            id,
            #[trigger] names[k],
        ) by {
            crate::tagdb::lemma_auto_linked_grows(prev, si, st, id, names[k]);
            crate::tagdb::lemma_auto_linked_grows(prev, st, cur, id, names[k]);
        }
        let rows = choose|rows: Seq<Vec<SqlCell>>|
            #[trigger] logged(
                st.sent_since(si),
                read_of(crate::bundle::RECORD_TAG_NAMES_SQL@, seq![SqlValue::Int(id as int)], rows),
            ) && crate::bundle::strings_view(rec.tags@) == crate::bundle::first_texts(rows);
        assert(logged(cur.sent_since(prev), read_of(crate::bundle::RECORD_TAG_NAMES_SQL@, seq![SqlValue::Int(id as int)], rows)));
    }
}

/// The statements of a re-copy are told apart by their text.
pub proof fn lemma_recopy_sqls_differ()
    ensures
        crate::tagdb::RECORD_LINK_SQL@ != RECOPY_SQL@,
        crate::tagdb::RECORD_LINK_SQL@ != RECOPY_HTML_SQL@,
        crate::tagdb::RECORD_LINK_SQL@ != crate::bundle::FTS_DELETE_SQL@,
        crate::tagdb::RECORD_LINK_SQL@ != crate::bundle::FTS_INSERT_SQL@,
        NEW_ROW_SQL@ != RECOPY_SQL@,
        NEW_ROW_SQL@ != RECOPY_HTML_SQL@,
        NEW_ROW_SQL@ != crate::bundle::FTS_DELETE_SQL@,
        NEW_ROW_SQL@ != crate::bundle::FTS_INSERT_SQL@,
        RECOPY_HTML_SQL@ != RECOPY_SQL@,
        RECOPY_HTML_SQL@ != crate::bundle::FTS_DELETE_SQL@,
        RECOPY_HTML_SQL@ != crate::bundle::FTS_INSERT_SQL@,
{
    reveal_strlit("DELETE FROM records_fts WHERE rowid = ?");
    reveal_strlit("INSERT INTO records_fts(rowid, content, source_app, source_window, tags, alias)
         SELECT
            r.id,
            substr(content, 1, 32768),
            r.source_app,
            r.source_window,
            COALESCE((
                SELECT group_concat(t.name, ' ')
                FROM record_tags rt
                INNER JOIN tags t ON t.id = rt.tag_id
                WHERE rt.record_id = r.id
            ), ''),
            r.alias
         FROM records r WHERE r.id = ?");
    reveal_strlit("INSERT INTO records (content, content_type, source_app, source_window, source_name, source_device_id, hash, copy_count, is_sensitive, auto_expire_at, created_at, updated_at, media_path, thumb_path, width, height, content_html, content_len)
             VALUES (?, ?, ?, ?, ?, ?, ?, 0, ?, ?, ?, ?, ?, ?, ?, ?, ?, ?)");
    reveal_strlit("UPDATE records SET content_html = ? WHERE id = ?");
    reveal_strlit("UPDATE records SET updated_at = ?, source_app = ?, source_window = ?, source_name = ? WHERE id = ?");
    reveal_strlit("INSERT OR IGNORE INTO record_tags (record_id, tag_id) VALUES (?, ?)");
    assert(crate::tagdb::RECORD_LINK_SQL@[0] != RECOPY_SQL@[0]);
    assert(crate::tagdb::RECORD_LINK_SQL@[0] != RECOPY_HTML_SQL@[0]);
    assert(crate::tagdb::RECORD_LINK_SQL@[0] != crate::bundle::FTS_DELETE_SQL@[0]);
    assert(crate::tagdb::RECORD_LINK_SQL@[7] != crate::bundle::FTS_INSERT_SQL@[7]);
    assert(NEW_ROW_SQL@[0] != RECOPY_SQL@[0]);
    assert(NEW_ROW_SQL@[0] != RECOPY_HTML_SQL@[0]);
    assert(NEW_ROW_SQL@[0] != crate::bundle::FTS_DELETE_SQL@[0]);
    assert(NEW_ROW_SQL@[19] != crate::bundle::FTS_INSERT_SQL@[19]);
    assert(RECOPY_HTML_SQL@[19] != RECOPY_SQL@[19]);
    assert(RECOPY_HTML_SQL@[0] != crate::bundle::FTS_DELETE_SQL@[0]);
    assert(RECOPY_HTML_SQL@[0] != crate::bundle::FTS_INSERT_SQL@[0]);
}

impl ClipboardDb {
    /// The record a fresh capture produced, built from the values the insert
    /// already holds.
    pub fn build_inserted_record(
        &mut self,
        id: i64,
        content: &str,
        content_type: &ContentType,
        hash: &str,
        is_sensitive: bool,
        auto_expire_at: Option<String>,
        source_app: &str,
        source_window: &str,
        source_name: &str,
        source_device_id: &str,
        image: Option<&ImageMeta>,
        now: &str,
    ) -> (r: ClipboardRecord)
        ensures
            final(self).frame(*old(self)),
            inserted_record_spec(
                r,
                id,
                content@,
                *content_type,
                hash@,
                is_sensitive,
                opt_view(auto_expire_at),
                source_app@,
                source_window@,
                source_name@,
                source_device_id@,
                match image {
                    Some(i) => Some(*i),
                    None => None,
                },
                now@,
                old(self).media_prefix_view(),
            ),
    {
        let (media_path, thumb_path, width, height): (
            Option<String>,
            Option<String>,
            Option<i32>,
            Option<i32>,
        ) = match image {
            Some(img) => (
                Some(img.media_path.clone()),
                Some(img.thumb_path.clone()),
                Some(img.width),
                Some(img.height),
            ),
            None => (None, None, None, None),
        };
        let media_abs = abs_opt(self.prefix(), &media_path);
        let thumb_abs = abs_opt(self.prefix(), &thumb_path);
        let chars = chars_of(content);
        let list_content = string_of(&take_chars(&chars, LIST_CONTENT_MAX));
        ClipboardRecord {
            id,
            content: list_content,
            content_type: content_type.as_str().to_owned(),
            source_app: source_app.to_owned(),
            source_window: source_window.to_owned(),
            source_name: source_name.to_owned(),
            source_device_id: source_device_id.to_owned(),
            hash: hash.to_owned(),
            copy_count: 0,
            is_favorite: false,
            is_pinned: false,
            is_sensitive,
            is_trashed: false,
            auto_expire_at,
            created_at: now.to_owned(),
            updated_at: now.to_owned(),
            tags: Vec::new(),
            tag_colors: Vec::new(),
            content_html: None,
            media_path,
            thumb_path,
            width,
            height,
            media_abs,
            thumb_abs,
            content_len: Some(
                if chars.len() <= i32::MAX as usize {
                    chars.len() as i32
                } else {
                    i32::MAX
                },
            ),
            alias: String::new(),
        }
    }

    /// The active row with `hash` (the most recently updated one).
    fn find_active_duplicate(&mut self, hash: &str) -> (r: Result<Option<i64>, DbError>)
        ensures
            final(self).frame(*old(self)),
            reads_only(*old(self), *final(self)),
            r matches Ok(v) ==> exists|rows: Seq<Vec<SqlCell>>|
                final(self).log() == old(self).log().push(
                    #[trigger] read_of(DUPLICATE_SQL@, seq![SqlValue::Text(hash@)], rows),
                ) && v == first_int_spec(rows),
    {
        let params = crate::tagdb::text_params(hash);
        let rows = self.query(DUPLICATE_SQL, &params)?;
        assert(self.log() == old(self).log().push(read_of(DUPLICATE_SQL@, seq![SqlValue::Text(hash@)], rows@)));
        Ok(crate::sqlite::first_int(&rows))
    }

    /// One record by id, in list shape (no rich text) with its tags.
    pub fn get_record_list(&mut self, id: i64) -> (r: Result<Option<ClipboardRecord>, DbError>)
        ensures
            final(self).frame(*old(self)),
            reads_only(*old(self), *final(self)),
            r matches Ok(Some(rec)) ==> row_shaped(rec, old(self).media_prefix_view()) && rec.tag_colors@.len() == 0
                && rec.id == id,
    {
        self.record_by_id(RECORD_COLS_LIST, id, false)
    }

    /// One record by id, in full with its tags.
    pub fn get_record(&mut self, id: i64) -> (r: Result<Option<ClipboardRecord>, DbError>)
        ensures
            final(self).frame(*old(self)),
            reads_only(*old(self), *final(self)),
            r matches Ok(Some(rec)) ==> row_shaped(rec, old(self).media_prefix_view()) && rec.tag_colors@.len() == 0
                && rec.id == id,
    {
        self.record_by_id(RECORD_COLS, id, false)
    }

    /// Full active record for pasting; the paste count is not changed here.
    pub fn take_record_for_paste(&mut self, id: i64) -> (r: Result<Option<ClipboardRecord>, DbError>)
        ensures
            final(self).frame(*old(self)),
            reads_only(*old(self), *final(self)),
            r matches Ok(Some(rec)) ==> row_shaped(rec, old(self).media_prefix_view()) && rec.tag_colors@.len() == 0
                && rec.id == id,
    {
        self.record_by_id(RECORD_COLS, id, true)
    }

    fn record_by_id(&mut self, cols: &str, id: i64, active_only: bool) -> (r: Result<
        Option<ClipboardRecord>,
        DbError,
    >)
        ensures
            final(self).frame(*old(self)),
            reads_only(*old(self), *final(self)),
            r matches Ok(Some(rec)) ==> row_shaped(rec, old(self).media_prefix_view()) && rec.tag_colors@.len() == 0
                && rec.id == id,
    {
        let mut sql = String::new();
        sql.append("SELECT ");
        sql.append(cols);
        if active_only {
            sql.append(" FROM records WHERE id = ? AND is_trashed = 0");
        } else {
            sql.append(" FROM records WHERE id = ?");
        }
        let mut params: Vec<SqlParam> = Vec::new();
        params.push(SqlParam::Int(id));
        let mut records = self.query_records(sql.as_str(), &params)?;
        if records.len() == 0 || records[0].id != id {
            return Ok(None);
        }
        let tags = self.record_tag_names(records[0].id)?;
        assert(row_shaped(records@[0], self.media_prefix_view()));
        let mut rec = records.remove(0);
        rec.tags = tags;
        Ok(Some(rec))
    }

    /// A re-copy refreshes the source and timestamp of the existing row (the
    /// paste count is separate) and, when it carries rich text, the row's
    /// HTML; the full-text row is rebuilt only when the source changed. The
    /// returned record is the listed row so refreshed.
    fn refresh_duplicate_source(
        &mut self,
        id: i64,
        source_app: &str,
        source_window: &str,
        source_name: &str,
        content_html: Option<&str>,
    ) -> (r: Result<ClipboardRecord, DbError>)
        ensures
            final(self).frame(*old(self)),
            r matches Ok(rec) ==> recopied(
                *old(self),
                *final(self),
                rec,
                id,
                source_app@,
                source_window@,
                source_name@,
                html_view(content_html),
            ),
    {
        proof {
            lemma_recopy_sqls_differ();
        }
        let mut probe: Vec<SqlParam> = Vec::new();
        probe.push(SqlParam::Text(source_app.to_owned()));
        probe.push(SqlParam::Text(source_window.to_owned()));
        probe.push(SqlParam::Text(source_name.to_owned()));
        probe.push(SqlParam::Int(id));
        let changed = match self.query_int("SELECT source_app != ?1 OR source_window != ?2 OR source_name != ?3
             FROM records WHERE id = ?4",
            &probe,
        )? {
            Some(v) => v != 0,
            None => {
                return Err(DbError::NoRows);
            },
        };
        let row = match self.get_record_list(id)? {
            Some(rec) => rec,
            None => {
                return Err(DbError::NoRows);
            },
        };
        let ghost s0 = *self;
        let now = rfc3339_in(0);
        let up = recopy_params(now.as_str(), source_app, source_window, source_name, id);
        self.exec(RECOPY_SQL, &up)?;
        let ghost s1 = *self;
        let ghost vals = recopy_values(now@, source_app@, source_window@, source_name@, id as int);
        proof {
            assert(params_view(up@) == vals);
            lemma_last_run(s0, s1, RECOPY_SQL@, vals);
            lemma_sent_grows(*old(self), s0, s1);
        }
        let mut s2 = Ghost(s1);
        if let Some(h) = content_html {
            self.exec(RECOPY_HTML_SQL, &text_id_params(h, id))?;
            proof {
                lemma_last_run(s1, *self, RECOPY_HTML_SQL@, text_int(h@, id as int));
                lemma_sent_grows(*old(self), s1, *self);
                s2@ = *self;
            }
        }
        let ghost s2v = s2@;
        if changed {
            self.refresh_record_fts(id)?;
        }
        proof {
            lemma_sent_grows(*old(self), s2v, *self);
            lemma_sent_grows(*old(self), s1, s2v);
            let ls = seq![crate::tagdb::RECORD_LINK_SQL@, NEW_ROW_SQL@, RECOPY_HTML_SQL@];
            assert forall|j: int| 0 <= j < 3 implies {
                &&& count_runs(s1.log(), #[trigger] ls[j]) == count_runs(old(self).log(), ls[j])
                &&& count_runs(self.log(), ls[j]) == count_runs(s2v.log(), ls[j])
            } by {
                lemma_count_push(s0.log(), s1.log().last(), ls[j]);
                assert(s1.log() =~= s0.log().push(s1.log().last()));
            }
            if content_html is None {
                assert(s2v == s1);
            } else {
                lemma_count_push(s1.log(), s2v.log().last(), ls[0]);
                lemma_count_push(s1.log(), s2v.log().last(), ls[1]);
                assert(s2v.log() =~= s1.log().push(s2v.log().last()));
            }
            lemma_count_since(*old(self), *self, ls[0]);
            lemma_count_since(*old(self), *self, ls[1]);
            lemma_count_since(*old(self), *self, ls[2]);
            assert(sent_run(self.sent_since(*old(self)), RECOPY_SQL@, vals));
        }
        let rec = refresh_record(row, now.as_str(), source_app, source_window, source_name);
        Ok(rec)
    }

    /// More active rows than `max_records` (at least one is allowed)?
    fn is_over_capacity(&mut self, max_records: i32) -> (r: Result<bool, DbError>)
        ensures
            final(self).frame(*old(self)),
    {
        let max: i64 = if max_records < 1 { 1 } else { max_records as i64 };
        let mut params: Vec<SqlParam> = Vec::new();
        params.push(SqlParam::Int(max + 1));
        match self.query_int("SELECT COUNT(*) FROM (
                SELECT 1 FROM records WHERE is_trashed = 0 LIMIT ?
             )",
            &params,
        )? {
            Some(probe) => Ok(exceeds_capacity(probe, max_records)),
            None => Err(DbError::NoRows),
        }
    }

    /// Store a capture. A re-copy of an active hash refreshes that row and
    /// returns `(id, false, row)`; otherwise a fresh row is inserted and
    /// `(id, true, row)` returned, the oldest unprotected rows being evicted
    /// beyond `max_records` (their media are returned for removal). Sensitive
    /// captures expire `sensitive_auto_expire_seconds` from now when that is
    /// positive.
    pub fn insert_record_evicting(
        &mut self,
        content: &str,
        content_type: &ContentType,
        hash: &str,
        is_sensitive: bool,
        max_records: i32,
        sensitive_auto_expire_seconds: i32,
        source_app: &str,
        source_window: &str,
        source_name: &str,
        settings: &Settings,
        image: Option<&ImageMeta>,
        content_html: Option<&str>,
    ) -> (r: Result<((i64, bool, ClipboardRecord), Vec<(Option<String>, Option<String>)>), DbError>)
        ensures
            final(self).frame(*old(self)),
            r matches Ok(res) ==> stored_capture(
                *old(self),
                *final(self),
                res.0.0,
                res.0.1,
                res.0.2,
                content@,
                *content_type,
                hash@,
                is_sensitive,
                sensitive_auto_expire_seconds,
                source_app@,
                source_window@,
                source_name@,
                *settings,
                image_view(image),
                html_view(content_html),
            ) && (!res.0.1 ==> res.1@.len() == 0),
    {
        let dup = self.find_active_duplicate(hash)?;
        let ghost sp = *self;
        let ghost probe = self.log().last();
        proof {
            assert(self.sent_since(*old(self)) =~= seq![probe]);
        }
        if let Some(id) = dup {
            let record = self.refresh_duplicate_source(
                id,
                source_app,
                source_window,
                source_name,
                content_html,
            )?;
            proof {
                lemma_recopied_after_read(
                    *old(self),
                    sp,
                    *self,
                    record,
                    id,
                    source_app@,
                    source_window@,
                    source_name@,
                    html_view(content_html),
                );
                lemma_sent_grows(*old(self), sp, *self);
                assert(self.sent_since(*old(self))[0] == probe);
            }
            return Ok(((id, false, record), Vec::new()));
        }
        let now = rfc3339_in(0);
        let auto_expire_at = sensitive_expiry(is_sensitive, sensitive_auto_expire_seconds);
        let source_device_id = settings.webdav_device_id.as_str();
        let id = self.insert_new_row(
            content,
            content_type,
            hash,
            is_sensitive,
            &auto_expire_at,
            source_app,
            source_window,
            source_name,
            source_device_id,
            image,
            content_html,
            now.as_str(),
        )?;
        let ghost si = *self;
        proof {
            let b = old(self).log().len() as int;
            assert(si.sent_since(*old(self))[0] == probe);
            assert(si.sent_since(*old(self))[1] == si.sent_since(sp)[0]);
            assert(si.sent_since(*old(self))[2] == si.sent_since(sp)[1]);
        }
        let ghost vals = capture_values(
            content@,
            *content_type,
            hash@,
            is_sensitive,
            auto_expire_at,
            source_app@,
            source_window@,
            source_name@,
            settings.webdav_device_id@,
            image_view(image),
            html_view(content_html),
            now@,
        );
        let ghost exp = opt_view(auto_expire_at);
        let mut record = self.build_inserted_record(
            id,
            content,
            content_type,
            hash,
            is_sensitive,
            auto_expire_at,
            source_app,
            source_window,
            source_name,
            source_device_id,
            image,
            now.as_str(),
        );
        let ghost base = record;
        proof {
            assert(inserted_record_spec(
                base,
                id,
                content@,
                *content_type,
                hash@,
                is_sensitive,
                exp,
                source_app@,
                source_window@,
                source_name@,
                source_device_id@,
                image_view(image),
                now@,
                self.media_prefix_view(),
            ));
        }
        if settings.features.tags && settings.enable_auto_tag {
            let ghost sa = *self;
            self.apply_auto_tags(id, content, content_type, &settings.auto_tag_rules)?;
            let ghost sb = *self;
            let tags = self.record_tag_names(id)?;
            proof {
                let names = crate::tagdb::matched_upto(
                    settings.auto_tag_rules@,
                    crate::text::lowercase(content@),
                    *content_type,
                    settings.auto_tag_rules@.len() as int,
                );
                lemma_sent_grows(si, sa, sb);
                lemma_sent_grows(si, sb, *self);
                assert forall|k: int| 0 <= k < names.len() implies crate::tagdb::auto_linked(
                    self.sent_since(si),
                    id,
                    #[trigger] names[k],
                ) by {
                    crate::tagdb::lemma_auto_linked_grows(si, sa, sb, id, names[k]);
                    crate::tagdb::lemma_auto_linked_grows(si, sb, *self, id, names[k]);
                }
                lemma_last_logged(sb, *self);
                lemma_sent_grows(si, sb, *self);
                let rd = read_of(crate::bundle::RECORD_TAG_NAMES_SQL@, seq![SqlValue::Int(id as int)], choose|rows: Seq<Vec<SqlCell>>|
                    self.log() == sb.log().push(
                        #[trigger] read_of(crate::bundle::RECORD_TAG_NAMES_SQL@, seq![SqlValue::Int(id as int)], rows),
                    ) && crate::bundle::strings_view(tags@) == crate::bundle::first_texts(rows));
                assert(logged(self.sent_since(si), rd));
            }
            record.tags = tags;
        }
        let ghost st = *self;
        proof {
            assert(record == (ClipboardRecord { tags: record.tags, ..base }));
            assert(captured_record(
                record,
                id,
                content@,
                *content_type,
                hash@,
                is_sensitive,
                source_app@,
                source_window@,
                source_name@,
                source_device_id@,
                image_view(image),
                self.media_prefix_view(),
            ));
        }
        if !self.is_over_capacity(max_records)? {
            proof {
                lemma_sent_grows(*old(self), si, *self);
                assert(is_run(self.sent_since(*old(self))[1], NEW_ROW_SQL@, vals));
                lemma_tagged_capture_grows(*old(self), si, st, *self, id, record, content@, *content_type, *settings);
            }
            return Ok(((id, true, record), Vec::new()));
        }
        let media = self.evict_over_limit(max_records)?;
        proof {
            lemma_sent_grows(*old(self), si, *self);
            assert(is_run(self.sent_since(*old(self))[1], NEW_ROW_SQL@, vals));
            lemma_tagged_capture_grows(*old(self), si, st, *self, id, record, content@, *content_type, *settings);
        }
        Ok(((id, true, record), media))
    }

    /// [`insert_record_evicting`](Self::insert_record_evicting) for callers
    /// that leave the media of evicted rows in place.
    pub fn insert_record(
        &mut self,
        content: &str,
        content_type: &ContentType,
        hash: &str,
        is_sensitive: bool,
        max_records: i32,
        sensitive_auto_expire_seconds: i32,
        source_app: &str,
        source_window: &str,
        source_name: &str,
        settings: &Settings,
        image: Option<&ImageMeta>,
        content_html: Option<&str>,
    ) -> (r: Result<(i64, bool, ClipboardRecord), DbError>)
        ensures
            final(self).frame(*old(self)),
            r matches Ok(res) ==> stored_capture(
                *old(self),
                *final(self),
                res.0,
                res.1,
                res.2,
                content@,
                *content_type,
                hash@,
                is_sensitive,
                sensitive_auto_expire_seconds,
                source_app@,
                source_window@,
                source_name@,
                *settings,
                image_view(image),
                html_view(content_html),
            ),
    {
        let (out, _media) = self.insert_record_evicting(
            content,
            content_type,
            hash,
            is_sensitive,
            max_records,
            sensitive_auto_expire_seconds,
            source_app,
            source_window,
            source_name,
            settings,
            image,
            content_html,
        )?;
        Ok(out)
    }

    fn insert_new_row(
        &mut self,
        content: &str,
        content_type: &ContentType,
        hash: &str,
        is_sensitive: bool,
        auto_expire_at: &Option<String>,
        source_app: &str,
        source_window: &str,
        source_name: &str,
        source_device_id: &str,
        image: Option<&ImageMeta>,
        content_html: Option<&str>,
        now: &str,
    ) -> (r: Result<i64, DbError>)
        ensures
            final(self).frame(*old(self)),
            r matches Ok(id) ==> {
                let sent = final(self).sent_since(*old(self));
                &&& sent.len() == 2
                &&& is_run(
                    sent[0],
                    NEW_ROW_SQL@,
                    capture_values(
                        content@,
                        *content_type,
                        hash@,
                        is_sensitive,
                        *auto_expire_at,
                        source_app@,
                        source_window@,
                        source_name@,
                        source_device_id@,
                        image_view(image),
                        html_view(content_html),
                        now@,
                    ),
                )
                &&& sent[1] == Sent::Rowid(id)
            },
    {
        let (media_path, thumb_path, width, height): (
            Option<String>,
            Option<String>,
            Option<i32>,
            Option<i32>,
        ) = match image {
            Some(img) => (
                Some(img.media_path.clone()),
                Some(img.thumb_path.clone()),
                Some(img.width),
                Some(img.height),
            ),
            None => (None, None, None, None),
        };
        let params = new_row_params(
            content,
            content_type,
            hash,
            is_sensitive,
            auto_expire_at,
            source_app,
            source_window,
            source_name,
            source_device_id,
            &media_path,
            &thumb_path,
            width,
            height,
            content_html,
            now,
        );
        self.exec(NEW_ROW_SQL, &params)?;
        let ghost s1 = *self;
        let id = self.last_insert_rowid();
        proof {
            let sent = self.sent_since(*old(self));
            assert(sent.len() == 2);
            assert(sent[0] == s1.log().last());
            assert(html_view(content_html) == match content_html {
                Some(h) => Some(h@),
                None => None,
            });
        }
        Ok(id)
    }

    /// Whether any row, active or trashed, has `hash`.
    pub fn record_hash_exists(&mut self, hash: &str) -> (r: Result<bool, DbError>)
        ensures
            final(self).frame(*old(self)),
            r matches Ok(b) ==> exists|rows: Seq<Vec<SqlCell>>|
                final(self).log() == old(self).log().push(
                    #[trigger] read_of(HASH_EXISTS_SQL@, seq![SqlValue::Text(hash@)], rows),
                ) && b == (rows.len() > 0),
    {
        let params = crate::tagdb::text_params(hash);
        let rows = self.query(HASH_EXISTS_SQL, &params)?;
        assert(self.log() == old(self).log().push(read_of(HASH_EXISTS_SQL@, params_view(params@), rows@)));
        Ok(rows.len() > 0)
    }

    /// Count one paste of an active record (its `updated_at` is unchanged).
    pub fn bump_copy_count(&mut self, id: i64) -> (r: Result<(), DbError>)
        ensures
            final(self).frame(*old(self)),
            r is Ok ==> runs(
                final(self).sent_since(*old(self)),
                seq![(BUMP_COPY_SQL@, seq![SqlValue::Int(id as int)])],
            ),
    {
        self.exec(BUMP_COPY_SQL, &id_param(id))?;
        assert(self.sent_since(*old(self)) =~= seq![self.log().last()]);
        Ok(())
    }
}

/// Expiry stamp of a capture: `now + seconds` for a sensitive capture when
/// `seconds` is positive, otherwise none.
pub fn sensitive_expiry(is_sensitive: bool, auto_expire_seconds: i32) -> (r: Option<String>)
    ensures
        r is Some <==> is_sensitive && auto_expire_seconds > 0,
{
    if !is_sensitive || auto_expire_seconds <= 0 {
        return None;
    }
    Some(rfc3339_in(auto_expire_seconds as i64))
}

} // verus!
