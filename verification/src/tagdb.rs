//! Tag definitions in the store: the sync snapshot, applying a remote
//! snapshot, and auto-tag rules on fresh captures.
use vstd::prelude::*;

use crate::bundle::{auto_tag_color, auto_tag_color_spec, flag_value, rfc3339_in, strings_view};
use crate::capture::{id_param, text_id_params};
use crate::content::ContentType;
use crate::db::{ClipboardDb, text_int, lemma_last_logged, count_runs, lemma_count_push, lemma_count_since, lemma_sent_grows, logged, is_run, lemma_last_run, never_runs, read_of, sent_run};
use crate::query::{params_view, SqlParam, SqlValue};
use crate::record::AutoTagRule;
use crate::records::{cell_bool, cell_int, cell_text, read_bool, read_int, read_text, opt_view};
use crate::sqlite::{exec, exec_batch, last_insert_rowid, query, query_int, query_text, DbError, SqlCell, runs, Sent, first_int_spec, first_text_spec};
use crate::tagsync::{
    find_local_tag, gc_candidate, incoming_action_spec, incoming_tag_action, tombstone_deletes, IncomingTagAction,
    LocalTag, TagMergeStats, TagSyncRow,
};
use crate::text::{
    chars_contain, chars_of, contains_seq, lowercase, str_eq, to_lowercase, trim_seq, trim_string,
};

verus! {

/// Remember a tag deletion; a later deletion time wins.
pub const TAG_TOMBSTONE_UPSERT_SQL: &'static str = "INSERT INTO tag_tombstones (name, deleted_at) VALUES (?, ?)
                 ON CONFLICT(name) DO UPDATE SET deleted_at = MAX(deleted_at, excluded.deleted_at)";

/// Forget the deletion of one tag name.
pub const TAG_TOMBSTONE_DELETE_SQL: &'static str = "DELETE FROM tag_tombstones WHERE name = ?";

/// New color and auto flag of one tag.
pub const TAG_RECOLOR_SQL: &'static str = "UPDATE tags SET color = ?, is_auto = ? WHERE id = ?";

/// New edit stamp of one tag.
pub const TAG_STAMP_SQL: &'static str = "UPDATE tags SET updated_at = ? WHERE id = ?";

/// A tag from a snapshot, with its stamp.
pub const TAG_INSERT_SQL: &'static str = "INSERT INTO tags (name, color, is_auto, updated_at) VALUES (?, ?, ?, ?)";

/// Delete one tag.
pub const TAG_DELETE_SQL: &'static str = "DELETE FROM tags WHERE id = ?";

/// Unlink one tag from every record.
pub const TAG_UNLINK_ALL_SQL: &'static str = "DELETE FROM record_tags WHERE tag_id = ?";

/// New edit stamp of one record.
pub const RECORD_STAMP_SQL: &'static str = "UPDATE records SET updated_at = ? WHERE id = ?";

/// Remove every tag link of one record.
pub const RECORD_UNLINK_ALL_SQL: &'static str = "DELETE FROM record_tags WHERE record_id = ?";

/// Unlink one tag from one record.
pub const RECORD_UNLINK_SQL: &'static str = "DELETE FROM record_tags WHERE record_id = ? AND tag_id = ?";

/// Link one tag to one record (kept when already linked).
pub const RECORD_LINK_SQL: &'static str = "INSERT OR IGNORE INTO record_tags (record_id, tag_id) VALUES (?, ?)";

/// `[text]` as bound values.
/// A user-created tag, stamped as edited.
pub const TAG_CREATE_SQL: &'static str = "INSERT INTO tags (name, color, updated_at) VALUES (?, ?, ?)";

/// Rename / recolor a tag and stamp it.
pub const TAG_UPDATE_SQL: &'static str = "UPDATE tags SET name = ?, color = ?, updated_at = ? WHERE id = ?";

/// The name of one tag.
pub const TAG_NAME_SQL: &'static str = "SELECT name FROM tags WHERE id = ?";

/// The id of the tag with a name.
pub const TAG_ID_BY_NAME_SQL: &'static str = "SELECT id FROM tags WHERE name = ?";

/// An auto-tag created on demand.
pub const AUTO_TAG_INSERT_SQL: &'static str = "INSERT INTO tags (name, color, is_auto) VALUES (?, ?, 1)";

/// Every tag definition, for the snapshot.
pub const TAG_SYNC_ROWS_SQL: &'static str = "SELECT name, color, is_auto, updated_at FROM tags";

/// Every tag deletion tombstone, for the snapshot.
pub const TAG_TOMBSTONE_ROWS_SQL: &'static str = "SELECT name, deleted_at FROM tag_tombstones";

/// Bound values `[a, b]`.
pub open spec fn texts2(a: Seq<char>, b: Seq<char>) -> Seq<SqlValue> {
    seq![SqlValue::Text(a), SqlValue::Text(b)]
}

/// Bound values `[a, b]` of two integers.
pub open spec fn ints2(a: int, b: int) -> Seq<SqlValue> {
    seq![SqlValue::Int(a), SqlValue::Int(b)]
}

/// `log` links or unlinks (by `sql`) a tag and a record first, stamps the
/// record when a row changed, and rebuilds its full-text row.
pub open spec fn relinked(log: Seq<Sent>, sql: Seq<char>, record_id: int, tag_id: int) -> bool {
    &&& log.len() > 0
    &&& log[0] matches Sent::Ran(q, p, n) && q == sql && p == ints2(record_id, tag_id) && (n > 0
        ==> exists|now: Seq<char>| sent_run(log, RECORD_STAMP_SQL@, #[trigger] text_int(now, record_id)))
    &&& sent_run(log, crate::bundle::FTS_INSERT_SQL@, seq![SqlValue::Int(record_id)])
}

/// `log` linked record `record_id` to the tag named `name`: the tag was
/// looked up by name (and, when missing, created as that id) and the link
/// inserted.
pub open spec fn auto_linked(log: Seq<Sent>, record_id: i64, name: Seq<char>) -> bool {
    exists|rows: Seq<Vec<SqlCell>>, tag_id: i64|
        #[trigger] logged(log, read_of(TAG_ID_BY_NAME_SQL@, seq![SqlValue::Text(name)], rows))
            && #[trigger] sent_run(log, RECORD_LINK_SQL@, ints2(record_id as int, tag_id as int))
            && (first_int_spec(rows) matches Some(x) ==> x == tag_id)
}

/// A link sent between `prev` and `mid`, or `mid` and `cur`, was sent
/// between `prev` and `cur`.
pub proof fn lemma_auto_linked_grows(
    prev: ClipboardDb,
    mid: ClipboardDb,
    cur: ClipboardDb,
    record_id: i64,
    name: Seq<char>,
)
    requires
        mid.frame(prev),
        cur.frame(mid),
        auto_linked(mid.sent_since(prev), record_id, name) || auto_linked(cur.sent_since(mid), record_id, name),
    ensures
        auto_linked(cur.sent_since(prev), record_id, name),
{
    lemma_sent_grows(prev, mid, cur);
    let d = if auto_linked(mid.sent_since(prev), record_id, name) {
        mid.sent_since(prev)
    } else {
        cur.sent_since(mid)
    };
    let (rows, tag_id) = choose|rows: Seq<Vec<SqlCell>>, tag_id: i64|
        #[trigger] logged(d, read_of(TAG_ID_BY_NAME_SQL@, seq![SqlValue::Text(name)], rows))
            && #[trigger] sent_run(d, RECORD_LINK_SQL@, ints2(record_id as int, tag_id as int))
            && (first_int_spec(rows) matches Some(x) ==> x == tag_id);
    assert(logged(cur.sent_since(prev), read_of(TAG_ID_BY_NAME_SQL@, seq![SqlValue::Text(name)], rows)));
    assert(sent_run(cur.sent_since(prev), RECORD_LINK_SQL@, ints2(record_id as int, tag_id as int)));
}

/// Every local tag definition, for a merge.
pub const LOCAL_TAGS_SQL: &'static str = "SELECT id, name, color, is_auto, updated_at FROM tags";

/// The tombstone of one tag name.
pub const TAG_TOMBSTONE_BY_NAME_SQL: &'static str = "SELECT deleted_at FROM tag_tombstones WHERE name = ?";

/// Values bound by [`TAG_RECOLOR_SQL`].
pub open spec fn recolor_values(t: TagSyncRow, id: i64) -> Seq<SqlValue> {
    seq![SqlValue::Text(t.color@), flag_value(t.is_auto), SqlValue::Int(id as int)]
}

/// Values bound by [`TAG_INSERT_SQL`].
pub open spec fn insert_values(t: TagSyncRow) -> Seq<SqlValue> {
    seq![SqlValue::Text(t.name@), SqlValue::Text(t.color@), flag_value(t.is_auto), SqlValue::Text(t.updated_at@)]
}

/// `k` is the first local definition named `name`.
pub open spec fn named_at(local: Seq<LocalTag>, name: Seq<char>, k: int) -> bool {
    0 <= k < local.len() && local[k].name@ == name && forall|j: int| 0 <= j < k ==> local[j].name@ != name
}

/// No local definition is named `name`.
pub open spec fn unnamed(local: Seq<LocalTag>, name: Seq<char>) -> bool {
    forall|j: int| 0 <= j < local.len() ==> local[j].name@ != name
}

/// `log` applied incoming definition `t` against the local definitions
/// `local` read at the start: a known tag newer locally is left alone; an
/// older one is stamped and, when color or auto flag differ, recolored; an
/// unknown one is inserted unless its tombstone (looked up) is not older.
pub open spec fn applied_tag(log: Seq<Sent>, local: Seq<LocalTag>, t: TagSyncRow) -> bool {
    &&& forall|k: int|
        #[trigger] named_at(local, t.name@, k) ==> match incoming_action_spec(Some(local[k]@.def), t@, None) {
            IncomingTagAction::Update { changed } => sent_run(
                log,
                TAG_STAMP_SQL@,
                text_int(t.updated_at@, local[k].id as int),
            ) && (changed ==> sent_run(log, TAG_RECOLOR_SQL@, recolor_values(t, local[k].id))),
            _ => true,
        }
    &&& unnamed(local, t.name@) ==> exists|trows: Seq<Vec<SqlCell>>|
        #[trigger] logged(log, read_of(TAG_TOMBSTONE_BY_NAME_SQL@, seq![SqlValue::Text(t.name@)], trows)) && (
        incoming_action_spec(None, t@, first_text_spec(trows)) is Insert ==> sent_run(
            log,
            TAG_INSERT_SQL@,
            insert_values(t),
        ))
}

/// `log` merged the incoming definitions: the local definitions were read
/// (as `local`), and each incoming definition, the first of its name, was
/// applied against them (see [`applied_tag`]).
pub open spec fn merged_tags(log: Seq<Sent>, incoming: Seq<TagSyncRow>) -> bool {
    exists|rows: Seq<Vec<SqlCell>>, local: Seq<LocalTag>|
        #[trigger] logged(log, read_of(LOCAL_TAGS_SQL@, Seq::empty(), rows)) && #[trigger] decoded_tags(local, rows)
            && forall|j: int|
            0 <= j < incoming.len() && first_of_name(incoming, j) ==> applied_tag(log, local, #[trigger] incoming[j])
}

/// A merge sent between `prev` and `mid`, or `mid` and `cur`, was sent
/// between `prev` and `cur`.
pub proof fn lemma_merged_tags_grows(prev: ClipboardDb, mid: ClipboardDb, cur: ClipboardDb, incoming: Seq<TagSyncRow>)
    requires
        mid.frame(prev),
        cur.frame(mid),
        merged_tags(mid.sent_since(prev), incoming) || merged_tags(cur.sent_since(mid), incoming),
    ensures
        merged_tags(cur.sent_since(prev), incoming),
{
    lemma_sent_grows(prev, mid, cur);
    let d = if merged_tags(mid.sent_since(prev), incoming) {
        mid.sent_since(prev)
    } else {
        cur.sent_since(mid)
    };
    let (rows, local) = choose|rows: Seq<Vec<SqlCell>>, local: Seq<LocalTag>|
        #[trigger] logged(d, read_of(LOCAL_TAGS_SQL@, Seq::empty(), rows)) && #[trigger] decoded_tags(local, rows)
            && forall|j: int|
            0 <= j < incoming.len() && first_of_name(incoming, j) ==> applied_tag(d, local, #[trigger] incoming[j]);
    assert(logged(cur.sent_since(prev), read_of(LOCAL_TAGS_SQL@, Seq::empty(), rows)));
    assert forall|j: int|
        0 <= j < incoming.len() && first_of_name(incoming, j) implies applied_tag(cur.sent_since(prev), local, #[trigger] incoming[j]) by {
        if merged_tags(mid.sent_since(prev), incoming) {
            lemma_applied_tag_grows(prev, mid, cur, local, incoming[j]);
        } else {
            lemma_applied_tag_grows(prev, mid, cur, local, incoming[j]);
        }
    }
}

/// `local` is the tag rows `rows`, in order.
pub open spec fn decoded_tags(local: Seq<LocalTag>, rows: Seq<Vec<SqlCell>>) -> bool {
    local.len() == rows.len() && forall|k: int| 0 <= k < local.len() ==> local_tag_row_is(#[trigger] local[k], rows[k]@)
}

/// For `name`, `local` still finds what `local0` found.
pub open spec fn same_for(local: Seq<LocalTag>, local0: Seq<LocalTag>, name: Seq<char>) -> bool {
    &&& forall|k: int|
        #![trigger named_at(local, name, k)]
        #![trigger named_at(local0, name, k)]
        named_at(local, name, k) <==> named_at(local0, name, k)
    &&& unnamed(local, name) <==> unnamed(local0, name)
    &&& forall|k: int| #[trigger] named_at(local0, name, k) ==> local[k] == local0[k]
}

/// Replacing a definition by one of the same name keeps what other names
/// find.
proof fn lemma_same_for_set(local: Seq<LocalTag>, local0: Seq<LocalTag>, k: int, v: LocalTag, name: Seq<char>)
    requires
        same_for(local, local0, name),
        0 <= k < local.len(),
        v.name@ == local[k].name@,
        local[k].name@ != name,
    ensures
        same_for(local.update(k, v), local0, name),
{
    let u = local.update(k, v);
    assert forall|j: int| 0 <= j < local.len() implies u[j].name@ == local[j].name@ by {}
    assert forall|q: int| named_at(u, name, q) <==> named_at(local, name, q) by {}
    assert(unnamed(u, name) <==> unnamed(local, name));
}

/// Adding a definition of another name keeps what `name` finds.
proof fn lemma_same_for_push(local: Seq<LocalTag>, local0: Seq<LocalTag>, v: LocalTag, name: Seq<char>)
    requires
        same_for(local, local0, name),
        v.name@ != name,
    ensures
        same_for(local.push(v), local0, name),
{
    let u = local.push(v);
    assert forall|q: int| named_at(u, name, q) <==> named_at(local, name, q) by {
        if 0 <= q < local.len() {
            assert forall|j: int| 0 <= j < q implies u[j] == local[j] by {}
        }
    }
    assert(unnamed(u, name) <==> unnamed(local, name)) by {
        if unnamed(local, name) {
            assert forall|j: int| 0 <= j < u.len() implies u[j].name@ != name by {
                if j < local.len() {
                    assert(u[j] == local[j]);
                }
            }
        }
        if unnamed(u, name) {
            assert forall|j: int| 0 <= j < local.len() implies local[j].name@ != name by {
                assert(u[j] == local[j]);
            }
        }
    }
}

/// The first incoming definition of its name.
pub open spec fn first_of_name(incoming: Seq<TagSyncRow>, i: int) -> bool {
    forall|j: int| 0 <= j < i ==> incoming[j].name@ != incoming[i].name@
}

/// What `prev` to `mid`, or `mid` to `cur`, applied of `t` is applied by
/// `prev` to `cur`.
pub proof fn lemma_applied_tag_grows(
    prev: ClipboardDb,
    mid: ClipboardDb,
    cur: ClipboardDb,
    local: Seq<LocalTag>,
    t: TagSyncRow,
)
    requires
        mid.frame(prev),
        cur.frame(mid),
        applied_tag(mid.sent_since(prev), local, t) || applied_tag(cur.sent_since(mid), local, t),
    ensures
        applied_tag(cur.sent_since(prev), local, t),
{
    lemma_sent_grows(prev, mid, cur);
    let d = if applied_tag(mid.sent_since(prev), local, t) {
        mid.sent_since(prev)
    } else {
        cur.sent_since(mid)
    };
    let c = cur.sent_since(prev);
    assert forall|k: int| #[trigger] named_at(local, t.name@, k) implies match incoming_action_spec(Some(local[k]@.def), t@, None) {
            IncomingTagAction::Update { changed } => sent_run(
                c,
                TAG_STAMP_SQL@,
                text_int(t.updated_at@, local[k].id as int),
            ) && (changed ==> sent_run(c, TAG_RECOLOR_SQL@, recolor_values(t, local[k].id))),
            _ => true,
        } by {
        match incoming_action_spec(Some(local[k]@.def), t@, None) {
            IncomingTagAction::Update { changed } => {
                assert(sent_run(d, TAG_STAMP_SQL@, text_int(t.updated_at@, local[k].id as int)));
                if changed {
                    assert(sent_run(d, TAG_RECOLOR_SQL@, recolor_values(t, local[k].id)));
                }
            },
            _ => {},
        }
    }
    if unnamed(local, t.name@) {
        let trows = choose|trows: Seq<Vec<SqlCell>>|
            #[trigger] logged(d, read_of(TAG_TOMBSTONE_BY_NAME_SQL@, seq![SqlValue::Text(t.name@)], trows)) && (
            incoming_action_spec(None, t@, first_text_spec(trows)) is Insert ==> sent_run(
                d,
                TAG_INSERT_SQL@,
                insert_values(t),
            ));
        assert(logged(c, read_of(TAG_TOMBSTONE_BY_NAME_SQL@, seq![SqlValue::Text(t.name@)], trows)));
        if incoming_action_spec(None, t@, first_text_spec(trows)) is Insert {
            assert(sent_run(c, TAG_INSERT_SQL@, insert_values(t)));
        }
    }
}

/// Bound values `[a, b, c]`.
pub open spec fn texts3(a: Seq<char>, b: Seq<char>, c: Seq<char>) -> Seq<SqlValue> {
    seq![SqlValue::Text(a), SqlValue::Text(b), SqlValue::Text(c)]
}

/// Bound values `[a, b, c, i]`.
pub open spec fn texts3_int(a: Seq<char>, b: Seq<char>, c: Seq<char>, i: int) -> Seq<SqlValue> {
    seq![SqlValue::Text(a), SqlValue::Text(b), SqlValue::Text(c), SqlValue::Int(i)]
}

/// Bound values of the tag list's type filter: the type, unless it is
/// empty or `all`.
pub open spec fn tag_filter_values(content_type: Option<&str>) -> Seq<SqlValue> {
    match content_type {
        Some(ct) => if ct@.len() > 0 && ct@ != "all"@ {
            seq![SqlValue::Text(ct@)]
        } else {
            Seq::empty()
        },
        None => Seq::empty(),
    }
}

pub fn text_params(a: &str) -> (p: Vec<SqlParam>)
    ensures
        params_view(p@) == seq![SqlValue::Text(a@)],
{
    let mut p: Vec<SqlParam> = Vec::new();
    p.push(SqlParam::Text(a.to_owned()));
    assert(params_view(p@) =~= seq![SqlValue::Text(a@)]);
    p
}

/// `[a, b]` as bound texts.
pub fn text_text_params(a: &str, b: &str) -> (p: Vec<SqlParam>)
    ensures
        params_view(p@) == seq![SqlValue::Text(a@), SqlValue::Text(b@)],
{
    let mut p: Vec<SqlParam> = Vec::new();
    p.push(SqlParam::Text(a.to_owned()));
    p.push(SqlParam::Text(b.to_owned()));
    assert(params_view(p@) =~= seq![SqlValue::Text(a@), SqlValue::Text(b@)]);
    p
}

/// `[a, b]` as bound integers.
pub fn int_int_params(a: i64, b: i64) -> (p: Vec<SqlParam>)
    ensures
        params_view(p@) == seq![SqlValue::Int(a as int), SqlValue::Int(b as int)],
{
    let mut p: Vec<SqlParam> = Vec::new();
    p.push(SqlParam::Int(a));
    p.push(SqlParam::Int(b));
    assert(params_view(p@) =~= seq![SqlValue::Int(a as int), SqlValue::Int(b as int)]);
    p
}

/// Values bound by [`TAG_RECOLOR_SQL`]: the snapshot's color and auto flag.
pub fn tag_recolor_params(tag: &TagSyncRow, id: i64) -> (p: Vec<SqlParam>)
    ensures
        params_view(p@) == seq![
            SqlValue::Text(tag.color@),
            flag_value(tag.is_auto),
            SqlValue::Int(id as int),
        ],
{
    let mut p: Vec<SqlParam> = Vec::new();
    p.push(SqlParam::Text(tag.color.clone()));
    p.push(SqlParam::Int(if tag.is_auto { 1 } else { 0 }));
    p.push(SqlParam::Int(id));
    assert(params_view(p@) =~= seq![
        SqlValue::Text(tag.color@),
        flag_value(tag.is_auto),
        SqlValue::Int(id as int),
    ]);
    p
}

/// Values bound by [`TAG_INSERT_SQL`]: the snapshot tag as it stands.
pub fn tag_insert_params(tag: &TagSyncRow) -> (p: Vec<SqlParam>)
    ensures
        params_view(p@) == seq![
            SqlValue::Text(tag.name@),
            SqlValue::Text(tag.color@),
            flag_value(tag.is_auto),
            SqlValue::Text(tag.updated_at@),
        ],
{
    let mut p: Vec<SqlParam> = Vec::new();
    p.push(SqlParam::Text(tag.name.clone()));
    p.push(SqlParam::Text(tag.color.clone()));
    p.push(SqlParam::Int(if tag.is_auto { 1 } else { 0 }));
    p.push(SqlParam::Text(tag.updated_at.clone()));
    assert(params_view(p@) =~= seq![
        SqlValue::Text(tag.name@),
        SqlValue::Text(tag.color@),
        flag_value(tag.is_auto),
        SqlValue::Text(tag.updated_at@),
    ]);
    p
}

/// Whether `c` is a `(name, color, is_auto, updated_at)` row.
pub open spec fn tag_row_ok(c: Seq<SqlCell>) -> bool {
    &&& c.len() >= 4
    &&& cell_text(c[0]) is Some
    &&& cell_text(c[1]) is Some
    &&& cell_bool(c[2]) is Some
    &&& cell_text(c[3]) is Some
}

/// `t` holds the columns of the row `c`.
pub open spec fn tag_row_is(t: TagSyncRow, c: Seq<SqlCell>) -> bool {
    &&& cell_text(c[0]) == Some(t.name@)
    &&& cell_text(c[1]) == Some(t.color@)
    &&& cell_bool(c[2]) == Some(t.is_auto)
    &&& cell_text(c[3]) == Some(t.updated_at@)
}

/// Rows `(name, color, is_auto, updated_at)`; `None` when a row has other types.
fn tag_rows(rows: &Vec<Vec<SqlCell>>) -> (r: Option<Vec<TagSyncRow>>)
    ensures
        r is Some <==> forall|k: int| 0 <= k < rows@.len() ==> tag_row_ok(#[trigger] rows@[k]@),
        r matches Some(v) ==> v@.len() == rows@.len() && forall|k: int|
            0 <= k < v@.len() ==> tag_row_is(#[trigger] v@[k], rows@[k]@),
{
    let mut out: Vec<TagSyncRow> = Vec::new();
    let mut i: usize = 0;
    while i < rows.len()
        invariant
            0 <= i <= rows.len(),
            out@.len() == i,
            forall|k: int| 0 <= k < i ==> tag_row_ok(#[trigger] rows@[k]@),
            forall|k: int| 0 <= k < i ==> tag_row_is(#[trigger] out@[k], rows@[k]@),
        decreases rows.len() - i,
    {
        if rows[i].len() < 4 {
            return None;
        }
        let name = match read_text(&rows[i][0]) {
            Some(v) => v,
            None => {
                return None;
            },
        };
        let color = match read_text(&rows[i][1]) {
            Some(v) => v,
            None => {
                return None;
            },
        };
        let is_auto = match read_bool(&rows[i][2]) {
            Some(v) => v,
            None => {
                return None;
            },
        };
        let updated_at = match read_text(&rows[i][3]) {
            Some(v) => v,
            None => {
                return None;
            },
        };
        out.push(TagSyncRow { name, color, is_auto, updated_at });
        i = i + 1;
    }
    Some(out)
}

/// Whether `c` is an `(id, name, color, is_auto, updated_at)` row.
pub open spec fn local_tag_row_ok(c: Seq<SqlCell>) -> bool {
    &&& c.len() >= 5
    &&& cell_int(c[0]) is Some
    &&& cell_text(c[1]) is Some
    &&& cell_text(c[2]) is Some
    &&& cell_bool(c[3]) is Some
    &&& cell_text(c[4]) is Some
}

/// `t` holds the columns of the row `c`.
pub open spec fn local_tag_row_is(t: LocalTag, c: Seq<SqlCell>) -> bool {
    &&& cell_int(c[0]) == Some(t.id)
    &&& cell_text(c[1]) == Some(t.name@)
    &&& cell_text(c[2]) == Some(t.color@)
    &&& cell_bool(c[3]) == Some(t.is_auto)
    &&& cell_text(c[4]) == Some(t.updated_at@)
}

/// Rows `(id, name, color, is_auto, updated_at)`; `None` when a row has other types.
fn local_tag_rows(rows: &Vec<Vec<SqlCell>>) -> (r: Option<Vec<LocalTag>>)
    ensures
        r is Some <==> forall|k: int| 0 <= k < rows@.len() ==> local_tag_row_ok(#[trigger] rows@[k]@),
        r matches Some(v) ==> v@.len() == rows@.len() && forall|k: int|
            0 <= k < v@.len() ==> local_tag_row_is(#[trigger] v@[k], rows@[k]@),
{
    let mut out: Vec<LocalTag> = Vec::new();
    let mut i: usize = 0;
    while i < rows.len()
        invariant
            0 <= i <= rows.len(),
            out@.len() == i,
            forall|k: int| 0 <= k < i ==> local_tag_row_ok(#[trigger] rows@[k]@),
            forall|k: int| 0 <= k < i ==> local_tag_row_is(#[trigger] out@[k], rows@[k]@),
        decreases rows.len() - i,
    {
        if rows[i].len() < 5 {
            return None;
        }
        let id = match read_int(&rows[i][0]) {
            Some(v) => v,
            None => {
                return None;
            },
        };
        let name = match read_text(&rows[i][1]) {
            Some(v) => v,
            None => {
                return None;
            },
        };
        let color = match read_text(&rows[i][2]) {
            Some(v) => v,
            None => {
                return None;
            },
        };
        let is_auto = match read_bool(&rows[i][3]) {
            Some(v) => v,
            None => {
                return None;
            },
        };
        let updated_at = match read_text(&rows[i][4]) {
            Some(v) => v,
            None => {
                return None;
            },
        };
        out.push(LocalTag { id, name, color, is_auto, updated_at });
        i = i + 1;
    }
    Some(out)
}

/// Whether `c` is a row of two text columns.
pub open spec fn text_pair_row_ok(c: Seq<SqlCell>) -> bool {
    c.len() >= 2 && cell_text(c[0]) is Some && cell_text(c[1]) is Some
}

/// Rows of two text columns; `None` when a row has other types.
pub(crate) fn text_pairs(rows: &Vec<Vec<SqlCell>>) -> (r: Option<Vec<(String, String)>>)
    ensures
        r is Some <==> forall|k: int| 0 <= k < rows@.len() ==> text_pair_row_ok(#[trigger] rows@[k]@),
        r matches Some(v) ==> v@.len() == rows@.len() && forall|k: int|
            0 <= k < v@.len() ==> cell_text(rows@[k]@[0]) == Some((#[trigger] v@[k]).0@)
                && cell_text(rows@[k]@[1]) == Some(v@[k].1@),
{
    let mut out: Vec<(String, String)> = Vec::new();
    let mut i: usize = 0;
    while i < rows.len()
        invariant
            0 <= i <= rows.len(),
            out@.len() == i,
            forall|k: int| 0 <= k < i ==> text_pair_row_ok(#[trigger] rows@[k]@),
            forall|k: int|
                0 <= k < i ==> cell_text(rows@[k]@[0]) == Some((#[trigger] out@[k]).0@) && cell_text(
                    rows@[k]@[1],
                ) == Some(out@[k].1@),
        decreases rows.len() - i,
    {
        if rows[i].len() < 2 {
            return None;
        }
        let a = match read_text(&rows[i][0]) {
            Some(v) => v,
            None => {
                return None;
            },
        };
        let b = match read_text(&rows[i][1]) {
            Some(v) => v,
            None => {
                return None;
            },
        };
        out.push((a, b));
        i = i + 1;
    }
    Some(out)
}

/// The statements of a tag merge are told apart by their text.
pub proof fn lemma_tag_sqls_differ()
    ensures
        TAG_INSERT_SQL@ != TAG_RECOLOR_SQL@,
        TAG_INSERT_SQL@ != TAG_DELETE_SQL@,
        TAG_INSERT_SQL@ != TAG_TOMBSTONE_UPSERT_SQL@,
        TAG_INSERT_SQL@ != TAG_STAMP_SQL@,
        TAG_INSERT_SQL@ != TAG_TOMBSTONE_DELETE_SQL@,
        TAG_INSERT_SQL@ != crate::bundle::FTS_DELETE_SQL@,
        TAG_INSERT_SQL@ != crate::bundle::FTS_INSERT_SQL@,
        TAG_RECOLOR_SQL@ != TAG_DELETE_SQL@,
        TAG_RECOLOR_SQL@ != TAG_TOMBSTONE_UPSERT_SQL@,
        TAG_RECOLOR_SQL@ != TAG_STAMP_SQL@,
        TAG_RECOLOR_SQL@ != TAG_TOMBSTONE_DELETE_SQL@,
        TAG_RECOLOR_SQL@ != crate::bundle::FTS_DELETE_SQL@,
        TAG_RECOLOR_SQL@ != crate::bundle::FTS_INSERT_SQL@,
        TAG_DELETE_SQL@ != TAG_TOMBSTONE_UPSERT_SQL@,
        TAG_DELETE_SQL@ != TAG_STAMP_SQL@,
        TAG_DELETE_SQL@ != TAG_TOMBSTONE_DELETE_SQL@,
        TAG_DELETE_SQL@ != crate::bundle::FTS_DELETE_SQL@,
        TAG_DELETE_SQL@ != crate::bundle::FTS_INSERT_SQL@,
{
    reveal_strlit("DELETE FROM records_fts WHERE rowid = ?");
    reveal_strlit("INSERT INTO records_fts(rowid, content, source_app, source_window, tags, alias)
         SELECT
            r.id,
            substr(content, 1, 32768),
            r.source_app,
            r.source_window,
            COALESCE((
                SELECT group_concat(t.name, ' ')
                FROM record_tags rt
                INNER JOIN tags t ON t.id = rt.tag_id
                WHERE rt.record_id = r.id
            ), ''),
            r.alias
         FROM records r WHERE r.id = ?");
    reveal_strlit("DELETE FROM tags WHERE id = ?");
    reveal_strlit("INSERT INTO tags (name, color, is_auto, updated_at) VALUES (?, ?, ?, ?)");
    reveal_strlit("UPDATE tags SET color = ?, is_auto = ? WHERE id = ?");
    reveal_strlit("UPDATE tags SET updated_at = ? WHERE id = ?");
    reveal_strlit("DELETE FROM tag_tombstones WHERE name = ?");
    reveal_strlit("INSERT INTO tag_tombstones (name, deleted_at) VALUES (?, ?)
                 ON CONFLICT(name) DO UPDATE SET deleted_at = MAX(deleted_at, excluded.deleted_at)");
    assert(TAG_INSERT_SQL@[0] != TAG_RECOLOR_SQL@[0]);
    assert(TAG_INSERT_SQL@[0] != TAG_DELETE_SQL@[0]);
    assert(TAG_INSERT_SQL@[15] != TAG_TOMBSTONE_UPSERT_SQL@[15]);
    assert(TAG_INSERT_SQL@[0] != TAG_STAMP_SQL@[0]);
    assert(TAG_INSERT_SQL@[0] != TAG_TOMBSTONE_DELETE_SQL@[0]);
    assert(TAG_INSERT_SQL@[0] != crate::bundle::FTS_DELETE_SQL@[0]);
    assert(TAG_INSERT_SQL@[12] != crate::bundle::FTS_INSERT_SQL@[12]);
    assert(TAG_RECOLOR_SQL@[0] != TAG_DELETE_SQL@[0]);
    assert(TAG_RECOLOR_SQL@[0] != TAG_TOMBSTONE_UPSERT_SQL@[0]);
    assert(TAG_RECOLOR_SQL@[16] != TAG_STAMP_SQL@[16]);
    assert(TAG_RECOLOR_SQL@[0] != TAG_TOMBSTONE_DELETE_SQL@[0]);
    assert(TAG_RECOLOR_SQL@[0] != crate::bundle::FTS_DELETE_SQL@[0]);
    assert(TAG_RECOLOR_SQL@[0] != crate::bundle::FTS_INSERT_SQL@[0]);
    assert(TAG_DELETE_SQL@[0] != TAG_TOMBSTONE_UPSERT_SQL@[0]);
    assert(TAG_DELETE_SQL@[0] != TAG_STAMP_SQL@[0]);
    assert(TAG_DELETE_SQL@[15] != TAG_TOMBSTONE_DELETE_SQL@[15]);
    assert(TAG_DELETE_SQL@[12] != crate::bundle::FTS_DELETE_SQL@[12]);
    assert(TAG_DELETE_SQL@[0] != crate::bundle::FTS_INSERT_SQL@[0]);
}

/// `cur` ran `sql` exactly `n` more times than `prev`.
pub open spec fn ran_more(prev: ClipboardDb, cur: ClipboardDb, sql: Seq<char>, n: int) -> bool {
    count_runs(cur.log(), sql) == count_runs(prev.log(), sql) + n
}

/// The counts of a tag merge follow one log entry `e`.
proof fn lemma_merge_counts_push(log: Seq<Sent>, e: Sent)
    ensures
        count_runs(log.push(e), TAG_INSERT_SQL@) == count_runs(log, TAG_INSERT_SQL@) + if e matches Sent::Ran(q, _, _) && q == TAG_INSERT_SQL@ { 1nat } else { 0nat },
        count_runs(log.push(e), TAG_RECOLOR_SQL@) == count_runs(log, TAG_RECOLOR_SQL@) + if e matches Sent::Ran(q, _, _) && q == TAG_RECOLOR_SQL@ { 1nat } else { 0nat },
        count_runs(log.push(e), TAG_DELETE_SQL@) == count_runs(log, TAG_DELETE_SQL@) + if e matches Sent::Ran(q, _, _) && q == TAG_DELETE_SQL@ { 1nat } else { 0nat },
{
    lemma_count_push(log, e, TAG_INSERT_SQL@);
    lemma_count_push(log, e, TAG_RECOLOR_SQL@);
    lemma_count_push(log, e, TAG_DELETE_SQL@);
}

impl ClipboardDb {
    /// Every tag definition and every tag deletion tombstone, for publishing
    /// the tag snapshot.
    pub fn get_tag_sync_rows(&mut self) -> (r: Result<(Vec<TagSyncRow>, Vec<(String, String)>), DbError>)
        ensures
            final(self).frame(*old(self)),
            r matches Ok((tags, tombs)) ==> exists|rows: Seq<Vec<SqlCell>>, trows: Seq<Vec<SqlCell>>|
                final(self).sent_since(*old(self)) == seq![
                    #[trigger] read_of(TAG_SYNC_ROWS_SQL@, Seq::empty(), rows),
                    #[trigger] read_of(TAG_TOMBSTONE_ROWS_SQL@, Seq::empty(), trows),
                ] && tags@.len() == rows.len() && (forall|k: int|
                    0 <= k < tags@.len() ==> tag_row_is(#[trigger] tags@[k], rows[k]@))
                    && tombs@.len() == trows.len() && forall|k: int|
                    0 <= k < tombs@.len() ==> cell_text(trows[k]@[0]) == Some((#[trigger] tombs@[k]).0@)
                        && cell_text(trows[k]@[1]) == Some(tombs@[k].1@),
    {
        let none: Vec<SqlParam> = Vec::new();
        assert(params_view(none@) =~= Seq::<SqlValue>::empty());
        let rows = self.query(TAG_SYNC_ROWS_SQL, &none)?;
        let ghost l1 = self.log();
        let tags = match tag_rows(&rows) {
            Some(t) => t,
            None => {
                return Err(crate::records::bad_row());
            },
        };
        let trows = self.query(TAG_TOMBSTONE_ROWS_SQL, &none)?;
        let tombstones = match text_pairs(&trows) {
            Some(t) => t,
            None => {
                return Err(crate::records::bad_row());
            },
        };
        assert(self.sent_since(*old(self)) =~= seq![
            read_of(TAG_SYNC_ROWS_SQL@, Seq::empty(), rows@),
            read_of(TAG_TOMBSTONE_ROWS_SQL@, Seq::empty(), trows@),
        ]);
        Ok((tags, tombstones))
    }

    /// Merge a remote tag snapshot, last writer wins by `updated_at`:
    /// incoming tombstones are folded in (latest per name); newer incoming
    /// definitions update color / auto flag and the stamp; unknown ones are
    /// added unless a tombstone at or after their stamp exists; incoming
    /// tombstones delete local tags not edited after the deletion; local tags
    /// the snapshot does not know, last touched before `snapshot_updated_at`,
    /// not sentinel-stamped and linked to no record are removed.
    pub fn merge_tag_snapshot(
        &mut self,
        incoming: &[TagSyncRow],
        incoming_tombstones: &[(String, String)],
        snapshot_updated_at: &str,
    ) -> (r: Result<TagMergeStats, DbError>)
        requires
            incoming@.len() + incoming_tombstones@.len() <= i32::MAX,
        ensures
            final(self).frame(*old(self)),
            r matches Ok(s) ==> 0 <= s.added <= incoming@.len() && 0 <= s.changed <= incoming@.len()
                && 0 <= s.deleted,
            r matches Ok(s) ==> s.added == count_runs(final(self).sent_since(*old(self)), TAG_INSERT_SQL@)
                && s.changed == count_runs(final(self).sent_since(*old(self)), TAG_RECOLOR_SQL@)
                && s.deleted == count_runs(final(self).sent_since(*old(self)), TAG_DELETE_SQL@),
            r is Err ==> crate::db::rolled_back(final(self).sent_since(*old(self))),
            r is Ok ==> merged_tags(final(self).sent_since(*old(self)), incoming@),
    {
        if let Err(e) = self.exec_batch("BEGIN") {
            assert(self.sent_since(*old(self)) =~= seq![Sent::Refused("BEGIN"@, Seq::empty())]);
            return Err(e);
        }
        let ghost s0 = *self;
        proof {
            assert(s0.sent_since(*old(self)) =~= seq![s0.log().last()]);
            lemma_merge_counts_push(old(self).log(), self.log().last());
            assert(self.log() == old(self).log().push(self.log().last()));
        }
        let res = self.merge_tag_snapshot_in_tx(incoming, incoming_tombstones, snapshot_updated_at);
        let ghost s1 = *self;
        match res {
            Ok(stats) => match self.exec_batch("COMMIT") {
                Ok(()) => {
                    proof {
                        lemma_merge_counts_push(self.log().drop_last(), self.log().last());
                        assert(self.log().drop_last().push(self.log().last()) =~= self.log());
                        lemma_count_since(*old(self), *self, TAG_INSERT_SQL@);
                        lemma_count_since(*old(self), *self, TAG_RECOLOR_SQL@);
                        lemma_count_since(*old(self), *self, TAG_DELETE_SQL@);
                        lemma_merged_tags_grows(*old(self), s0, s1, incoming@);
                        lemma_merged_tags_grows(*old(self), s1, *self, incoming@);
                    }
                    Ok(stats)
                },
                Err(e) => {
                    let ghost sr = *self;
                    self.rollback();
                    proof {
                        lemma_sent_grows(*old(self), s0, sr);
                        crate::db::lemma_rolled_back(*old(self), sr, *self);
                    }
                    Err(e)
                },
            },
            Err(e) => {
                let ghost sr = *self;
                self.rollback();
                proof {
                    lemma_sent_grows(*old(self), s0, sr);
                    crate::db::lemma_rolled_back(*old(self), sr, *self);
                }
                Err(e)
            },
        }
    }

    fn merge_tag_snapshot_in_tx(
        &mut self,
        incoming: &[TagSyncRow],
        incoming_tombstones: &[(String, String)],
        snapshot_updated_at: &str,
    ) -> (r: Result<TagMergeStats, DbError>)
        requires
            incoming@.len() + incoming_tombstones@.len() <= i32::MAX,
        ensures
            final(self).frame(*old(self)),
            r matches Ok(s) ==> 0 <= s.added <= incoming@.len() && 0 <= s.changed <= incoming@.len()
                && 0 <= s.deleted,
            r matches Ok(s) ==> s.added == count_runs(final(self).log(), TAG_INSERT_SQL@) - count_runs(old(self).log(), TAG_INSERT_SQL@)
                && s.changed == count_runs(final(self).log(), TAG_RECOLOR_SQL@) - count_runs(old(self).log(), TAG_RECOLOR_SQL@)
                && s.deleted == count_runs(final(self).log(), TAG_DELETE_SQL@) - count_runs(old(self).log(), TAG_DELETE_SQL@),
            r is Ok ==> merged_tags(final(self).sent_since(*old(self)), incoming@),
    {
        proof {
            lemma_tag_sqls_differ();
        }
        let mut stats = TagMergeStats { added: 0, changed: 0, deleted: 0 };
        // 1. Fold incoming tombstones (keep the newest per name).
        let mut t: usize = 0;
        while t < incoming_tombstones.len()
            invariant
                self.frame(*old(self)),
                stats.added == 0 && stats.changed == 0 && stats.deleted == 0,
                stats.added == count_runs(self.log(), TAG_INSERT_SQL@) - count_runs(old(self).log(), TAG_INSERT_SQL@),
                stats.changed == count_runs(self.log(), TAG_RECOLOR_SQL@) - count_runs(old(self).log(), TAG_RECOLOR_SQL@),
                stats.deleted == count_runs(self.log(), TAG_DELETE_SQL@) - count_runs(old(self).log(), TAG_DELETE_SQL@),
            decreases incoming_tombstones.len() - t,
        {
            proof {
                lemma_tag_sqls_differ();
            }
            let ghost l = self.log();
            self.exec(TAG_TOMBSTONE_UPSERT_SQL,
                &text_text_params(incoming_tombstones[t].0.as_str(), incoming_tombstones[t].1.as_str()),
            )?;
            proof { lemma_merge_counts_push(l, self.log().last()); }
            t = t + 1;
        }
        // 2. Apply incoming definitions.
        let ghost l = self.log();
        let ghost sr = *self;
        let none: Vec<SqlParam> = Vec::new();
        let rows = self.query(LOCAL_TAGS_SQL, &none)?;
        let ghost rd0 = read_of(LOCAL_TAGS_SQL@, Seq::empty(), rows@);
        proof {
            lemma_merge_counts_push(l, self.log().last());
            assert(params_view(none@) =~= Seq::<SqlValue>::empty());
            lemma_last_logged(*old(self), *self);
        }
        let mut local = match local_tag_rows(&rows) {
            Some(l) => l,
            None => {
                return Err(crate::records::bad_row());
            },
        };
        let ghost local0 = local@;
        let mut i: usize = 0;
        while i < incoming.len()
            invariant
                self.frame(*old(self)),
                0 <= i <= incoming.len(),
                incoming@.len() + incoming_tombstones@.len() <= i32::MAX,
                0 <= stats.added <= i,
                0 <= stats.changed <= i,
                stats.deleted == 0,
                stats.added == count_runs(self.log(), TAG_INSERT_SQL@) - count_runs(old(self).log(), TAG_INSERT_SQL@),
                stats.changed == count_runs(self.log(), TAG_RECOLOR_SQL@) - count_runs(old(self).log(), TAG_RECOLOR_SQL@),
                stats.deleted == count_runs(self.log(), TAG_DELETE_SQL@) - count_runs(old(self).log(), TAG_DELETE_SQL@),
                logged(self.sent_since(*old(self)), rd0),
                forall|name: Seq<char>|
                    (forall|j: int| 0 <= j < i ==> incoming@[j].name@ != name) ==> #[trigger] same_for(
                        local@,
                        local0,
                        name,
                    ),
                forall|j: int|
                    0 <= j < i && first_of_name(incoming@, j) ==> applied_tag(
                        self.sent_since(*old(self)),
                        local0,
                        #[trigger] incoming@[j],
                    ),
            decreases incoming.len() - i,
        {
            proof {
                lemma_tag_sqls_differ();
            }
            let ghost sk = *self;
            let tag = &incoming[i];
            let found = find_local_tag(&local, tag.name.as_str());
            let ghost first = first_of_name(incoming@, i as int);
            proof {
                if first {
                    assert(same_for(local@, local0, tag.name@));
                }
            }
            let mut trows: Ghost<Seq<Vec<SqlCell>>> = Ghost(Seq::empty());
            let tombstone: Option<String> = match found {
                Some(_) => None,
                None => {
                    let p = text_params(tag.name.as_str());
                    let ghost l = self.log();
                    let ghost sq = *self;
                    let d = self.query_text(TAG_TOMBSTONE_BY_NAME_SQL, &p)?;
                    proof {
                        lemma_merge_counts_push(l, self.log().last());
                        trows@ = choose|rows: Seq<Vec<SqlCell>>|
                            self.log() == sq.log().push(
                                #[trigger] read_of(TAG_TOMBSTONE_BY_NAME_SQL@, params_view(p@), rows),
                            ) && opt_view(d) == first_text_spec(rows);
                        lemma_last_logged(sk, *self);
                    }
                    d
                },
            };
            let ghost s1 = *self;
            let tomb_ref: Option<&str> = match &tombstone {
                Some(d) => Some(d.as_str()),
                None => None,
            };
            let action = match found {
                Some(k) => incoming_tag_action(Some(&local[k]), tag, None),
                None => incoming_tag_action(None, tag, tomb_ref),
            };
            proof {
                if found is None {
                    assert(crate::tagsync::opt_text_ref(tomb_ref) == first_text_spec(trows@));
                }
            }
            match action {
                IncomingTagAction::Skip => {},
                IncomingTagAction::Update { changed } => {
                    if let Some(k) = found {
                        let id = local[k].id;
                        if changed {
                            let ghost l = self.log();
                            let ghost sa = *self;
                            self.exec(TAG_RECOLOR_SQL, &tag_recolor_params(tag, id))?;
                            proof {
                                lemma_merge_counts_push(l, self.log().last());
                                lemma_last_run(sa, *self, TAG_RECOLOR_SQL@, recolor_values(*tag, id));
                                lemma_sent_grows(s1, sa, *self);
                            }
                            stats.changed = stats.changed + 1;
                        }
                        let ghost l = self.log();
                        let ghost s2 = *self;
                        self.exec(TAG_STAMP_SQL,
                            &text_id_params(tag.updated_at.as_str(), id),
                        )?;
                        proof {
                            lemma_merge_counts_push(l, self.log().last());
                            lemma_last_run(s2, *self, TAG_STAMP_SQL@, text_int(tag.updated_at@, id as int));
                            lemma_sent_grows(s1, s2, *self);
                            if changed {
                                assert(sent_run(self.sent_since(s1), TAG_RECOLOR_SQL@, recolor_values(*tag, id)));
                            }
                        }
                        let ghost before = local@;
                        local.set(
                            k,
                            LocalTag {
                                id,
                                name: tag.name.clone(),
                                color: tag.color.clone(),
                                is_auto: tag.is_auto,
                                updated_at: tag.updated_at.clone(),
                            },
                        );
                        proof {
                            assert forall|name: Seq<char>|
                                (forall|j: int| 0 <= j < i + 1 ==> incoming@[j].name@ != name) implies #[trigger] same_for(
                                    local@,
                                    local0,
                                    name,
                                ) by {
                                assert(same_for(before, local0, name));
                                lemma_same_for_set(before, local0, k as int, local@[k as int], name);
                                assert(local@ == before.update(k as int, local@[k as int]));
                            }
                        }
                    }
                },
                IncomingTagAction::Insert => {
                    let ghost l = self.log();
                    self.exec(TAG_INSERT_SQL, &tag_insert_params(tag))?;
                    let ghost s2 = *self;
                    proof {
                        lemma_merge_counts_push(l, self.log().last());
                        lemma_last_run(s1, s2, TAG_INSERT_SQL@, insert_values(*tag));
                    }
                    let ghost l = self.log();
                    let new_id = self.last_insert_rowid();
                    proof { lemma_merge_counts_push(l, self.log().last()); }
                    let ghost l = self.log();
                    self.exec(TAG_TOMBSTONE_DELETE_SQL, &text_params(tag.name.as_str()))?;
                    proof {
                        lemma_merge_counts_push(l, self.log().last());
                        lemma_sent_grows(s1, s2, *self);
                    }
                    let ghost before = local@;
                    local.push(
                        LocalTag {
                            id: new_id,
                            name: tag.name.clone(),
                            color: tag.color.clone(),
                            is_auto: tag.is_auto,
                            updated_at: tag.updated_at.clone(),
                        },
                    );
                    proof {
                        assert forall|name: Seq<char>|
                            (forall|j: int| 0 <= j < i + 1 ==> incoming@[j].name@ != name) implies #[trigger] same_for(
                                local@,
                                local0,
                                name,
                            ) by {
                            assert(same_for(before, local0, name));
                            lemma_same_for_push(before, local0, local@.last(), name);
                            assert(local@ == before.push(local@.last()));
                        }
                    }
                    stats.added = stats.added + 1;
                },
            }
            proof {
                lemma_sent_grows(sk, s1, *self);
                lemma_sent_grows(*old(self), sk, *self);
                if first {
                    let t = *tag;
                    assert forall|k: int| #[trigger] named_at(local0, t.name@, k) implies match incoming_action_spec(Some(local0[k]@.def), t@, None) {
                            IncomingTagAction::Update { changed } => sent_run(
                                self.sent_since(sk),
                                TAG_STAMP_SQL@,
                                text_int(t.updated_at@, local0[k].id as int),
                            ) && (changed ==> sent_run(self.sent_since(sk), TAG_RECOLOR_SQL@, recolor_values(t, local0[k].id))),
                            _ => true,
                        } by {
                        assert(named_at(local@, t.name@, k) || true);
                    }
                    if unnamed(local0, t.name@) {
                        assert(logged(self.sent_since(sk), read_of(TAG_TOMBSTONE_BY_NAME_SQL@, seq![SqlValue::Text(t.name@)], trows@)));
                    }
                    assert(applied_tag(self.sent_since(sk), local0, t));
                }
                assert forall|j: int|
                    0 <= j < i + 1 && first_of_name(incoming@, j) implies applied_tag(
                        self.sent_since(*old(self)),
                        local0,
                        #[trigger] incoming@[j],
                    ) by {
                    lemma_applied_tag_grows(*old(self), sk, *self, local0, incoming@[j]);
                }
                if !(action matches IncomingTagAction::Insert) && !(action matches IncomingTagAction::Update { .. } && found is Some) {
                    assert forall|name: Seq<char>|
                        (forall|j: int| 0 <= j < i + 1 ==> incoming@[j].name@ != name) implies #[trigger] same_for(
                            local@,
                            local0,
                            name,
                        ) by {
                        assert(forall|j: int| 0 <= j < i ==> incoming@[j].name@ != name);
                    }
                }
            }
            i = i + 1;
        }
        // 3. Incoming tombstone deletes (a local edit after the deletion wins).
        let ghost sa = *self;
        let mut dirty: Vec<i64> = Vec::new();
        let mut t: usize = 0;
        while t < incoming_tombstones.len()
            invariant
                self.frame(*old(self)),
                0 <= t <= incoming_tombstones.len(),
                incoming@.len() + incoming_tombstones@.len() <= i32::MAX,
                0 <= stats.added <= incoming@.len(),
                0 <= stats.changed <= incoming@.len(),
                0 <= stats.deleted <= t,
                stats.added == count_runs(self.log(), TAG_INSERT_SQL@) - count_runs(old(self).log(), TAG_INSERT_SQL@),
                stats.changed == count_runs(self.log(), TAG_RECOLOR_SQL@) - count_runs(old(self).log(), TAG_RECOLOR_SQL@),
                stats.deleted == count_runs(self.log(), TAG_DELETE_SQL@) - count_runs(old(self).log(), TAG_DELETE_SQL@),
                self.frame(sa),
                logged(sa.sent_since(*old(self)), rd0),
                forall|j: int|
                    0 <= j < incoming@.len() && first_of_name(incoming@, j) ==> applied_tag(
                        sa.sent_since(*old(self)),
                        local0,
                        #[trigger] incoming@[j],
                    ),
            decreases incoming_tombstones.len() - t,
        {
            proof {
                lemma_tag_sqls_differ();
            }
            let (name, deleted_at) = (&incoming_tombstones[t].0, &incoming_tombstones[t].1);
            if let Some(k) = find_local_tag(&local, name.as_str()) {
                if tombstone_deletes(local[k].updated_at.as_str(), deleted_at.as_str()) {
                    let id = local[k].id;
                    let mut p: Vec<SqlParam> = Vec::new();
                    p.push(SqlParam::Int(id));
                    let ghost l = self.log();
                    let links = self.query("SELECT record_id FROM record_tags WHERE tag_id = ?",
                        &p,
                    )?;
                    proof { lemma_merge_counts_push(l, self.log().last()); }
                    let mut j: usize = 0;
                    while j < links.len()
                        invariant
                            self.frame(*old(self)),
                            0 <= stats.deleted <= t,
                            stats.added == count_runs(self.log(), TAG_INSERT_SQL@) - count_runs(old(self).log(), TAG_INSERT_SQL@),
                            stats.changed == count_runs(self.log(), TAG_RECOLOR_SQL@) - count_runs(old(self).log(), TAG_RECOLOR_SQL@),
                            stats.deleted == count_runs(self.log(), TAG_DELETE_SQL@) - count_runs(old(self).log(), TAG_DELETE_SQL@),
                            self.frame(sa),
                            logged(sa.sent_since(*old(self)), rd0),
                            forall|j: int|
                                0 <= j < incoming@.len() && first_of_name(incoming@, j) ==> applied_tag(
                                    sa.sent_since(*old(self)),
                                    local0,
                                    #[trigger] incoming@[j],
                                ),
                        decreases links.len() - j,
                    {
                        if links[j].len() > 0 {
                            if let SqlCell::Int(rid) = &links[j][0] {
                                dirty.push(*rid);
                            }
                        }
                        j = j + 1;
                    }
                    let ghost l = self.log();
                    self.exec(TAG_DELETE_SQL, &id_param(id))?;
                    proof { lemma_merge_counts_push(l, self.log().last()); }
                    local.remove(k);
                    stats.deleted = stats.deleted + 1;
                }
            }
            t = t + 1;
        }
        // 4. Conservative clean-up of unlinked local leftovers.
        let mut g: usize = 0;
        while g < local.len()
            invariant
                self.frame(*old(self)),
                0 <= g <= local.len(),
                incoming@.len() + incoming_tombstones@.len() <= i32::MAX,
                0 <= stats.added <= incoming@.len(),
                0 <= stats.changed <= incoming@.len(),
                0 <= stats.deleted <= incoming_tombstones@.len() + g,
                stats.added == count_runs(self.log(), TAG_INSERT_SQL@) - count_runs(old(self).log(), TAG_INSERT_SQL@),
                stats.changed == count_runs(self.log(), TAG_RECOLOR_SQL@) - count_runs(old(self).log(), TAG_RECOLOR_SQL@),
                stats.deleted == count_runs(self.log(), TAG_DELETE_SQL@) - count_runs(old(self).log(), TAG_DELETE_SQL@),
                self.frame(sa),
                logged(sa.sent_since(*old(self)), rd0),
                forall|j: int|
                    0 <= j < incoming@.len() && first_of_name(incoming@, j) ==> applied_tag(
                        sa.sent_since(*old(self)),
                        local0,
                        #[trigger] incoming@[j],
                    ),
            decreases local.len() - g,
        {
            proof {
                lemma_tag_sqls_differ();
            }
            if gc_candidate(&local[g], incoming, snapshot_updated_at) {
                let mut p: Vec<SqlParam> = Vec::new();
                p.push(SqlParam::Int(local[g].id));
                let ghost l = self.log();
                let links = self.query_int("SELECT COUNT(*) FROM record_tags WHERE tag_id = ?",
                    &p,
                )?;
                proof { lemma_merge_counts_push(l, self.log().last()); }
                if links == Some(0i64) && stats.deleted < i32::MAX {
                    let ghost l = self.log();
                    self.exec(TAG_DELETE_SQL, &id_param(local[g].id))?;
                    proof { lemma_merge_counts_push(l, self.log().last()); }
                    stats.deleted = stats.deleted + 1;
                }
            }
            g = g + 1;
        }
        let ghost l = self.log();
        self.refresh_records_fts_batch(&dirty)?;
        proof {
            lemma_sent_grows(*old(self), sa, *self);
            assert forall|j: int|
                0 <= j < incoming@.len() && first_of_name(incoming@, j) implies applied_tag(
                    self.sent_since(*old(self)),
                    local0,
                    #[trigger] incoming@[j],
                ) by {
                lemma_applied_tag_grows(*old(self), sa, *self, local0, incoming@[j]);
            }
            assert(decoded_tags(local0, rows@));
            assert(logged(self.sent_since(*old(self)), rd0));
            assert(merged_tags(self.sent_since(*old(self)), incoming@));
            assert(count_runs(self.log(), TAG_INSERT_SQL@) == count_runs(l, TAG_INSERT_SQL@));
            assert(count_runs(self.log(), TAG_RECOLOR_SQL@) == count_runs(l, TAG_RECOLOR_SQL@));
            assert(count_runs(self.log(), TAG_DELETE_SQL@) == count_runs(l, TAG_DELETE_SQL@));
        }
        Ok(stats)
    }

    /// Rebuild the full-text rows of several records (duplicates allowed).
    pub(crate) fn refresh_records_fts_batch(&mut self, ids: &Vec<i64>) -> (r: Result<(), DbError>)
        ensures
            final(self).frame(*old(self)),
            r is Ok ==> forall|q: Seq<char>|
                q != crate::bundle::FTS_DELETE_SQL@ && q != crate::bundle::FTS_INSERT_SQL@ ==> #[trigger] count_runs(
                    final(self).log(),
                    q,
                ) == count_runs(old(self).log(), q),
    {
        let mut i: usize = 0;
        while i < ids.len()
            invariant
                self.frame(*old(self)),
                forall|q: Seq<char>|
                    q != crate::bundle::FTS_DELETE_SQL@ && q != crate::bundle::FTS_INSERT_SQL@ ==> #[trigger] count_runs(
                        self.log(),
                        q,
                    ) == count_runs(old(self).log(), q),
            decreases ids.len() - i,
        {
            let ghost sk = *self;
            self.refresh_record_fts(ids[i])?;
            proof {
                assert forall|q: Seq<char>|
                    q != crate::bundle::FTS_DELETE_SQL@ && q != crate::bundle::FTS_INSERT_SQL@ implies #[trigger] count_runs(
                        self.log(),
                        q,
                    ) == count_runs(old(self).log(), q) by {
                    let d = self.sent_since(sk);
                    lemma_count_since(sk, *self, q);
                    assert(d.len() == 2);
                    assert(d.drop_last().drop_last() =~= Seq::<Sent>::empty());
                    assert(d.drop_last().last() == d[0]);
                    assert(d.last() == d[1]);
                    assert(count_runs(d.drop_last().drop_last(), q) == 0);
                    assert(count_runs(d.drop_last(), q) == 0);
                    assert(count_runs(d, q) == 0);
                }
            }
            i = i + 1;
        }
        Ok(())
    }
}

/// A rule hits when the record's type is listed or its lowercased content
/// contains one of the rule's trimmed, non-empty keywords (lowercased).
pub open spec fn rule_hits(rule: AutoTagRule, content_lower: Seq<char>, ct: ContentType) -> bool {
    rule.content_types@.contains(ct) || exists|k: int|
        0 <= k < rule.keywords@.len() && trim_seq((#[trigger] rule.keywords@[k])@).len() > 0
            && contains_seq(content_lower, lowercase(trim_seq(rule.keywords@[k]@)))
}

/// Tag names the first `n` rules assign: each hitting rule's trimmed,
/// non-empty name, first occurrence only.
pub open spec fn matched_upto(rules: Seq<AutoTagRule>, content_lower: Seq<char>, ct: ContentType, n: int) -> Seq<
    Seq<char>,
>
    decreases n,
{
    if n <= 0 || n > rules.len() {
        Seq::empty()
    } else {
        let prev = matched_upto(rules, content_lower, ct, n - 1);
        let name = trim_seq(rules[n - 1].tag_name@);
        if name.len() > 0 && rule_hits(rules[n - 1], content_lower, ct) && !prev.contains(name) {
            prev.push(name)
        } else {
            prev
        }
    }
}

/// An auto-tag rule fires on content (already lowercased) of type `ct`:
/// its content types list `ct`, or one of its keywords, trimmed, non-empty
/// and lowercased, occurs in the content.
pub open spec fn rule_fires(rule: AutoTagRule, content_lower: Seq<char>, ct: ContentType) -> bool {
    ||| rule.content_types@.contains(ct)
    ||| exists|w: int|
        0 <= w < rule.keywords@.len() && trim_seq((#[trigger] rule.keywords@[w])@).len() > 0
            && contains_seq(content_lower, lowercase(trim_seq(rule.keywords@[w]@)))
}

/// Rule `k` fires and has a non-empty trimmed name, which is `name`.
pub open spec fn fires_with_name(rules: Seq<AutoTagRule>, content_lower: Seq<char>, ct: ContentType, k: int, name: Seq<char>) -> bool {
    0 <= k < rules.len() && trim_seq(rules[k].tag_name@).len() > 0 && trim_seq(rules[k].tag_name@) == name
        && rule_fires(rules[k], content_lower, ct)
}

/// Some rule among the first `n` fires and carries the trimmed name `name`.
pub open spec fn named_by_firing_rule(rules: Seq<AutoTagRule>, content_lower: Seq<char>, ct: ContentType, n: int, name: Seq<char>) -> bool {
    exists|k: int| 0 <= k < n && #[trigger] fires_with_name(rules, content_lower, ct, k, name)
}

/// Auto-tagging assigns exactly the names of the firing rules: every rule
/// among the first `n` that fires and has a non-empty trimmed name
/// contributes that name; every assigned name is such a rule's; no name is
/// assigned twice; and names come in the order their first firing rule has.
pub proof fn lemma_auto_tags_are_the_firing_rules(
    rules: Seq<AutoTagRule>,
    content_lower: Seq<char>,
    ct: ContentType,
    n: int,
)
    requires
        0 <= n <= rules.len(),
    ensures
        forall|k: int|
            0 <= k < n && trim_seq(rules[k].tag_name@).len() > 0 && rule_fires(#[trigger] rules[k], content_lower, ct)
                ==> matched_upto(rules, content_lower, ct, n).contains(trim_seq(rules[k].tag_name@)),
        forall|i: int|
            0 <= i < matched_upto(rules, content_lower, ct, n).len() ==> named_by_firing_rule(
                rules,
                content_lower,
                ct,
                n,
                #[trigger] matched_upto(rules, content_lower, ct, n)[i],
            ),
        forall|i: int, j: int|
            0 <= i < j < matched_upto(rules, content_lower, ct, n).len() ==> matched_upto(
                rules,
                content_lower,
                ct,
                n,
            )[i] != matched_upto(rules, content_lower, ct, n)[j],
        forall|i: int, j: int, k2: int|
            0 <= i < j < matched_upto(rules, content_lower, ct, n).len() && 0 <= k2 < n && #[trigger] fires_with_name(
                rules,
                content_lower,
                ct,
                k2,
                matched_upto(rules, content_lower, ct, n)[j],
            ) ==> named_by_firing_rule(
                rules,
                content_lower,
                ct,
                k2,
                #[trigger] matched_upto(rules, content_lower, ct, n)[i],
            ),
    decreases n,
{
    let m = matched_upto(rules, content_lower, ct, n);
    if n > 0 {
        lemma_auto_tags_are_the_firing_rules(rules, content_lower, ct, n - 1);
        let prev = matched_upto(rules, content_lower, ct, n - 1);
        let name = trim_seq(rules[n - 1].tag_name@);
        assert(rule_fires(rules[n - 1], content_lower, ct) == rule_hits(rules[n - 1], content_lower, ct));
        let added = name.len() > 0 && rule_hits(rules[n - 1], content_lower, ct) && !prev.contains(name);
        if added {
            assert(m == prev.push(name));
            assert(fires_with_name(rules, content_lower, ct, n - 1, name));
            assert forall|k: int|
                0 <= k < n && trim_seq(rules[k].tag_name@).len() > 0 && rule_fires(#[trigger] rules[k], content_lower, ct)
                    implies m.contains(trim_seq(rules[k].tag_name@)) by {
                if k < n - 1 {
                    let q = choose|q: int| 0 <= q < prev.len() && prev[q] == trim_seq(rules[k].tag_name@);
                    assert(m[q] == prev[q]);
                } else {
                    assert(m[prev.len() as int] == name);
                }
            }
            assert forall|i: int| 0 <= i < m.len() implies named_by_firing_rule(rules, content_lower, ct, n, #[trigger] m[i]) by {
                if i < prev.len() {
                    assert(m[i] == prev[i]);
                    assert(named_by_firing_rule(rules, content_lower, ct, n - 1, prev[i]));
                    let k = choose|k: int| 0 <= k < n - 1 && #[trigger] fires_with_name(rules, content_lower, ct, k, prev[i]);
                    assert(fires_with_name(rules, content_lower, ct, k, m[i]));
                } else {
                    assert(m[i] == name);
                    assert(fires_with_name(rules, content_lower, ct, n - 1, m[i]));
                }
            }
            assert forall|i: int, j: int| 0 <= i < j < m.len() implies m[i] != m[j] by {
                if j == prev.len() {
                    assert(m[i] == prev[i]);
                    assert(prev.contains(prev[i]));
                } else {
                    assert(m[i] == prev[i] && m[j] == prev[j]);
                }
            }
            assert forall|i: int, j: int, k2: int|
                0 <= i < j < m.len() && 0 <= k2 < n && #[trigger] fires_with_name(rules, content_lower, ct, k2, m[j])
                    implies named_by_firing_rule(rules, content_lower, ct, k2, #[trigger] m[i]) by {
                assert(m[i] == prev[i]);
                assert(named_by_firing_rule(rules, content_lower, ct, n - 1, prev[i]));
                let k1 = choose|k1: int| 0 <= k1 < n - 1 && #[trigger] fires_with_name(rules, content_lower, ct, k1, prev[i]);
                if j == prev.len() {
                    if k2 < n - 1 {
                        assert(rule_fires(rules[k2], content_lower, ct));
                        assert(prev.contains(trim_seq(rules[k2].tag_name@)));
                        assert(false);
                    }
                    assert(fires_with_name(rules, content_lower, ct, k1, m[i]));
                } else {
                    assert(m[j] == prev[j]);
                    if k2 == n - 1 {
                        assert(fires_with_name(rules, content_lower, ct, k1, m[i]));
                    } else {
                        assert(fires_with_name(rules, content_lower, ct, k2, prev[j]));
                        assert(named_by_firing_rule(rules, content_lower, ct, k2, prev[i]));
                        let k3 = choose|k3: int| 0 <= k3 < k2 && #[trigger] fires_with_name(rules, content_lower, ct, k3, prev[i]);
                        assert(fires_with_name(rules, content_lower, ct, k3, m[i]));
                    }
                }
            }
        } else {
            assert(m == prev);
            assert forall|k: int|
                0 <= k < n && trim_seq(rules[k].tag_name@).len() > 0 && rule_fires(#[trigger] rules[k], content_lower, ct)
                    implies m.contains(trim_seq(rules[k].tag_name@)) by {
                if k == n - 1 {
                    assert(prev.contains(name));
                }
            }
            assert forall|i: int| 0 <= i < m.len() implies named_by_firing_rule(rules, content_lower, ct, n, #[trigger] m[i]) by {
                assert(m[i] == prev[i]);
                assert(named_by_firing_rule(rules, content_lower, ct, n - 1, prev[i]));
                let k = choose|k: int| 0 <= k < n - 1 && #[trigger] fires_with_name(rules, content_lower, ct, k, prev[i]);
                assert(fires_with_name(rules, content_lower, ct, k, m[i]));
            }
            assert forall|i: int, j: int| 0 <= i < j < m.len() implies m[i] != m[j] by {
                assert(m[i] == prev[i] && m[j] == prev[j]);
            }
            assert forall|i: int, j: int, k2: int|
                0 <= i < j < m.len() && 0 <= k2 < n && #[trigger] fires_with_name(rules, content_lower, ct, k2, m[j])
                    implies named_by_firing_rule(rules, content_lower, ct, k2, #[trigger] m[i]) by {
                assert(m[i] == prev[i] && m[j] == prev[j]);
                if k2 == n - 1 {
                    assert(named_by_firing_rule(rules, content_lower, ct, n - 1, prev[j]));
                    let q = choose|q: int| 0 <= q < n - 1 && #[trigger] fires_with_name(rules, content_lower, ct, q, prev[j]);
                    assert(fires_with_name(rules, content_lower, ct, q, prev[j]));
                    assert(named_by_firing_rule(rules, content_lower, ct, q, prev[i]));
                    let k1 = choose|k1: int| 0 <= k1 < q && #[trigger] fires_with_name(rules, content_lower, ct, k1, prev[i]);
                    assert(fires_with_name(rules, content_lower, ct, k1, m[i]));
                } else {
                    assert(fires_with_name(rules, content_lower, ct, k2, prev[j]));
                    assert(named_by_firing_rule(rules, content_lower, ct, k2, prev[i]));
                    let k1 = choose|k1: int| 0 <= k1 < k2 && #[trigger] fires_with_name(rules, content_lower, ct, k1, prev[i]);
                    assert(fires_with_name(rules, content_lower, ct, k1, m[i]));
                }
            }
        }
    }
}

fn type_listed(types: &Vec<ContentType>, ct: ContentType) -> (r: bool)
    ensures
        r == types@.contains(ct),
{
    let mut i: usize = 0;
    while i < types.len()
        invariant
            0 <= i <= types.len(),
            forall|j: int| 0 <= j < i ==> types@[j] != ct,
        decreases types.len() - i,
    {
        if types[i] == ct {
            return true;
        }
        i = i + 1;
    }
    false
}

fn rule_hits_exec(rule: &AutoTagRule, content_lower: &Vec<char>, ct: ContentType) -> (r: bool)
    ensures
        r == rule_hits(*rule, content_lower@, ct),
{
    if type_listed(&rule.content_types, ct) {
        return true;
    }
    let mut k: usize = 0;
    while k < rule.keywords.len()
        invariant
            0 <= k <= rule.keywords.len(),
            forall|j: int|
                0 <= j < k ==> !(trim_seq((#[trigger] rule.keywords@[j])@).len() > 0
                    && contains_seq(content_lower@, lowercase(trim_seq(rule.keywords@[j]@)))),
        decreases rule.keywords.len() - k,
    {
        let kw = trim_string(rule.keywords[k].as_str());
        if !kw.as_str().is_empty() {
            let kl = to_lowercase(kw.as_str());
            let kv = chars_of(kl.as_str());
            if chars_contain(content_lower, &kv) {
                return true;
            }
        }
        k = k + 1;
    }
    false
}

/// Tag names the auto-tag rules assign to a capture.
pub fn matched_auto_tags(content: &str, content_type: ContentType, rules: &Vec<AutoTagRule>) -> (r:
    Vec<String>)
    ensures
        strings_view(r@) == matched_upto(
            rules@,
            lowercase(content@),
            content_type,
            rules@.len() as int,
        ),
        forall|k: int|
            0 <= k < rules@.len() && trim_seq(rules@[k].tag_name@).len() > 0 && rule_fires(
                #[trigger] rules@[k],
                lowercase(content@),
                content_type,
            ) ==> strings_view(r@).contains(trim_seq(rules@[k].tag_name@)),
        forall|i: int|
            0 <= i < r@.len() ==> named_by_firing_rule(
                rules@,
                lowercase(content@),
                content_type,
                rules@.len() as int,
                #[trigger] strings_view(r@)[i],
            ),
{
    proof {
        lemma_auto_tags_are_the_firing_rules(rules@, lowercase(content@), content_type, rules@.len() as int);
    }
    let lower = to_lowercase(content);
    let lv = chars_of(lower.as_str());
    let mut out: Vec<String> = Vec::new();
    let mut i: usize = 0;
    while i < rules.len()
        invariant
            0 <= i <= rules.len(),
            lv@ == lowercase(content@),
            strings_view(out@) == matched_upto(rules@, lv@, content_type, i as int),
        decreases rules.len() - i,
    {
        let name = trim_string(rules[i].tag_name.as_str());
        if !name.as_str().is_empty() && rule_hits_exec(&rules[i], &lv, content_type)
            && !crate::bundle::contains_name(&out, name.as_str()) {
            out.push(name);
        }
        assert(strings_view(out@) =~= matched_upto(rules@, lv@, content_type, i + 1));
        i = i + 1;
    }
    out
}

impl ClipboardDb {
    /// Id of the tag `name`, creating it as an auto tag in its auto color.
    pub fn ensure_auto_tag(&mut self, name: &str) -> (r: Result<i64, DbError>)
        ensures
            final(self).frame(*old(self)),
            r matches Ok(id) ==> exists|rows: Seq<Vec<SqlCell>>| {
                let sent = final(self).sent_since(*old(self));
                &&& sent.len() > 0
                &&& sent[0] == #[trigger] read_of(TAG_ID_BY_NAME_SQL@, seq![SqlValue::Text(name@)], rows)
                &&& match first_int_spec(rows) {
                    Some(x) => id == x && sent.len() == 1,
                    None => sent.len() == 3 && is_run(
                        sent[1],
                        AUTO_TAG_INSERT_SQL@,
                        seq![SqlValue::Text(name@), SqlValue::Text(auto_tag_color_spec(name@))],
                    ) && sent[2] == Sent::Rowid(id),
                }
            },
    {
        let params = text_params(name);
        let rows = self.query(TAG_ID_BY_NAME_SQL, &params)?;
        let ghost first = read_of(TAG_ID_BY_NAME_SQL@, seq![SqlValue::Text(name@)], rows@);
        assert(self.sent_since(*old(self)) =~= seq![first]);
        if let Some(id) = crate::sqlite::first_int(&rows) {
            return Ok(id);
        }
        let ins = text_text_params(name, auto_tag_color(name));
        self.exec(AUTO_TAG_INSERT_SQL, &ins)?;
        let ghost s1 = *self;
        let id = self.last_insert_rowid();
        proof {
            let sent = self.sent_since(*old(self));
            assert(sent.len() == 3);
            assert(sent[0] == first);
            assert(sent[1] == s1.log().last());
        }
        Ok(id)
    }

    /// Link a fresh capture to the tags its auto-tag rules assign (one
    /// transaction, one full-text rebuild).
    pub fn apply_auto_tags(
        &mut self,
        record_id: i64,
        content: &str,
        content_type: &ContentType,
        rules: &Vec<AutoTagRule>,
    ) -> (r: Result<(), DbError>)
        ensures
            final(self).frame(*old(self)),
            matched_upto(rules@, lowercase(content@), *content_type, rules@.len() as int).len() == 0
                ==> r is Ok,
            r is Ok ==> forall|k: int|
                0 <= k < matched_upto(rules@, lowercase(content@), *content_type, rules@.len() as int).len()
                    ==> auto_linked(
                    final(self).sent_since(*old(self)),
                    record_id,
                    #[trigger] matched_upto(rules@, lowercase(content@), *content_type, rules@.len() as int)[k],
                ),
    {
        let matched = matched_auto_tags(content, *content_type, rules);
        assert(strings_view(matched@).len() == matched@.len());
        if matched.len() == 0 {
            return Ok(());
        }
        self.exec_batch("BEGIN")?;
        let ghost s1 = *self;
        let res = self.link_auto_tags(record_id, &matched);
        let ghost s2 = *self;
        match res {
            Ok(()) => match self.exec_batch("COMMIT") {
                Ok(()) => {
                    proof {
                        let ms = matched_upto(rules@, lowercase(content@), *content_type, rules@.len() as int);
                        lemma_sent_grows(*old(self), s1, s2);
                        assert forall|k: int| 0 <= k < ms.len() implies auto_linked(
                            self.sent_since(*old(self)),
                            record_id,
                            #[trigger] ms[k],
                        ) by {
                            assert(strings_view(matched@)[k] == matched@[k]@);
                            lemma_auto_linked_grows(*old(self), s1, s2, record_id, ms[k]);
                            lemma_auto_linked_grows(*old(self), s2, *self, record_id, ms[k]);
                        }
                    }
                    Ok(())
                },
                Err(e) => {
                    let _ = self.exec_batch("ROLLBACK");
                    Err(e)
                },
            },
            Err(e) => {
                let _ = self.exec_batch("ROLLBACK");
                Err(e)
            },
        }
    }

    fn link_auto_tags(&mut self, record_id: i64, names: &Vec<String>) -> (r: Result<(), DbError>)
        ensures
            final(self).frame(*old(self)),
            r is Ok ==> forall|k: int|
                0 <= k < names@.len() ==> auto_linked(final(self).sent_since(*old(self)), record_id, (#[trigger] names@[k])@),
    {
        let mut i: usize = 0;
        while i < names.len()
            invariant
                self.frame(*old(self)),
                0 <= i <= names@.len(),
                forall|k: int|
                    0 <= k < i ==> auto_linked(self.sent_since(*old(self)), record_id, (#[trigger] names@[k])@),
            decreases names.len() - i,
        {
            let ghost s0 = *self;
            let tag_id = self.ensure_auto_tag(names[i].as_str())?;
            let ghost s1 = *self;
            let p = int_int_params(record_id, tag_id);
            self.exec(RECORD_LINK_SQL, &p)?;
            proof {
                let name = names@[i as int]@;
                let rows = choose|rows: Seq<Vec<SqlCell>>| {
                    let sent = s1.sent_since(s0);
                    &&& sent.len() > 0
                    &&& sent[0] == #[trigger] read_of(TAG_ID_BY_NAME_SQL@, seq![SqlValue::Text(name)], rows)
                    &&& match first_int_spec(rows) {
                        Some(x) => tag_id == x && sent.len() == 1,
                        None => sent.len() == 3 && is_run(
                            sent[1],
                            AUTO_TAG_INSERT_SQL@,
                            seq![SqlValue::Text(name), SqlValue::Text(auto_tag_color_spec(name))],
                        ) && sent[2] == Sent::Rowid(tag_id),
                    }
                };
                lemma_sent_grows(s0, s1, *self);
                let rd = read_of(TAG_ID_BY_NAME_SQL@, seq![SqlValue::Text(name)], rows);
                assert(self.sent_since(s0)[0] == rd);
                assert(logged(self.sent_since(s0), rd));
                lemma_last_run(s0, *self, RECORD_LINK_SQL@, ints2(record_id as int, tag_id as int));
                assert(auto_linked(self.sent_since(s0), record_id, name));
                assert forall|k: int| 0 <= k < i + 1 implies auto_linked(
                    self.sent_since(*old(self)),
                    record_id,
                    (#[trigger] names@[k])@,
                ) by {
                    lemma_auto_linked_grows(*old(self), s0, *self, record_id, names@[k]@);
                }
            }
            i = i + 1;
        }
        let ghost s2 = *self;
        let res = self.refresh_record_fts(record_id);
        proof {
            if res is Ok {
                assert forall|k: int| 0 <= k < names@.len() implies auto_linked(
                    self.sent_since(*old(self)),
                    record_id,
                    (#[trigger] names@[k])@,
                ) by {
                    lemma_auto_linked_grows(*old(self), s2, *self, record_id, names@[k]@);
                }
            }
        }
        res
    }
}

/// One tag with its number of active records (under the filters asked for).
#[derive(Debug, Clone, PartialEq, Eq)]
pub struct TagInfo {
    pub id: i64,
    pub name: String,
    pub color: String,
    pub is_auto: bool,
    pub count: i64,
}

/// Whether `c` is an `(id, name, color, is_auto, count)` row.
pub open spec fn tag_info_row_ok(c: Seq<SqlCell>) -> bool {
    &&& c.len() >= 5
    &&& cell_int(c[0]) is Some
    &&& cell_text(c[1]) is Some
    &&& cell_text(c[2]) is Some
    &&& cell_bool(c[3]) is Some
    &&& cell_int(c[4]) is Some
}

/// `t` holds the columns of the row `c`.
pub open spec fn tag_info_row_is(t: TagInfo, c: Seq<SqlCell>) -> bool {
    &&& cell_int(c[0]) == Some(t.id)
    &&& cell_text(c[1]) == Some(t.name@)
    &&& cell_text(c[2]) == Some(t.color@)
    &&& cell_bool(c[3]) == Some(t.is_auto)
    &&& cell_int(c[4]) == Some(t.count)
}

/// Tag list rows as `TagInfo`, in order; `None` when a row has other types.
pub fn tag_info_rows(rows: &Vec<Vec<SqlCell>>) -> (r: Option<Vec<TagInfo>>)
    ensures
        r is Some <==> forall|k: int| 0 <= k < rows@.len() ==> tag_info_row_ok(#[trigger] rows@[k]@),
        r matches Some(v) ==> v@.len() == rows@.len() && forall|k: int|
            0 <= k < v@.len() ==> tag_info_row_is(#[trigger] v@[k], rows@[k]@),
{
    let mut out: Vec<TagInfo> = Vec::new();
    let mut i: usize = 0;
    while i < rows.len()
        invariant
            0 <= i <= rows.len(),
            out@.len() == i,
            forall|k: int| 0 <= k < i ==> tag_info_row_ok(#[trigger] rows@[k]@),
            forall|k: int| 0 <= k < i ==> tag_info_row_is(#[trigger] out@[k], rows@[k]@),
        decreases rows.len() - i,
    {
        if rows[i].len() < 5 {
            return None;
        }
        let id = match read_int(&rows[i][0]) { Some(v) => v, None => { return None; } };
        let name = match read_text(&rows[i][1]) { Some(v) => v, None => { return None; } };
        let color = match read_text(&rows[i][2]) { Some(v) => v, None => { return None; } };
        let is_auto = match read_bool(&rows[i][3]) { Some(v) => v, None => { return None; } };
        let count = match read_int(&rows[i][4]) { Some(v) => v, None => { return None; } };
        out.push(TagInfo { id, name, color, is_auto, count });
        i = i + 1;
    }
    Some(out)
}

/// Whether the palette snap changes a stored color.
pub fn palette_snap(color: &str) -> (r: Option<&'static str>)
    ensures
        match r {
            Some(s) => s@ == crate::palette::palette_seq()[crate::palette::nearest_index(color@)]
                && crate::palette::color_key(color@) != crate::palette::color_key(s@),
            None => crate::palette::color_key(color@) == crate::palette::color_key(
                crate::palette::palette_seq()[crate::palette::nearest_index(color@)],
            ),
        },
{
    let snapped = crate::palette::nearest_palette_color(color);
    let a = crate::palette::normalize_color_key(color);
    let b = crate::palette::normalize_color_key(snapped);
    if str_eq(a.as_str(), b.as_str()) {
        None
    } else {
        Some(snapped)
    }
}

impl ClipboardDb {
    /// One-shot (`tag_palette_v2`): snap every stored tag color onto the
    /// 12-swatch wheel.
    pub fn migrate_tag_palette_v2(conn: &rusqlite::Connection) -> (r: Result<(), DbError>) {
        if crate::db::flag_done(conn, "tag_palette_v2") {
            return Ok(());
        }
        let rows = query(conn, "SELECT id, color FROM tags", &Vec::new())?;
        let mut i: usize = 0;
        while i < rows.len()
            decreases rows.len() - i,
        {
            if rows[i].len() < 2 {
                return Err(crate::records::bad_row());
            }
            match (read_int(&rows[i][0]), read_text(&rows[i][1])) {
                (Some(id), Some(color)) => {
                    if let Some(snapped) = palette_snap(color.as_str()) {
                        let mut p: Vec<SqlParam> = Vec::new();
                        p.push(SqlParam::Text(snapped.to_owned()));
                        p.push(SqlParam::Int(id));
                        exec(conn, "UPDATE tags SET color = ? WHERE id = ?", &p)?;
                    }
                },
                _ => {
                    return Err(crate::records::bad_row());
                },
            }
            i = i + 1;
        }
        exec(
            conn,
            "INSERT OR REPLACE INTO settings (key, value) VALUES ('tag_palette_v2', '1')",
            &Vec::new(),
        )?;
        Ok(())
    }

    /// Every tag ordered by name, with its count of active records (only
    /// favorites, or one content type, when asked).
    pub fn get_all_tags(&mut self, content_type: Option<&str>, favorites_only: bool) -> (r: Result<
        Vec<TagInfo>,
        DbError,
    >)
        ensures
            final(self).frame(*old(self)),
            r matches Ok(v) ==> exists|sql: Seq<char>, rows: Seq<Vec<SqlCell>>|
                final(self).log() == old(self).log().push(
                    #[trigger] read_of(sql, tag_filter_values(content_type), rows),
                ) && v@.len() == rows.len() && forall|k: int|
                    0 <= k < v@.len() ==> tag_info_row_is(#[trigger] v@[k], rows[k]@),
    {
        let mut sql = String::new();
        sql.append(
            "SELECT t.id, t.name, t.color, t.is_auto, COUNT(r.id) as cnt
             FROM tags t
             LEFT JOIN record_tags rt ON rt.tag_id = t.id
             LEFT JOIN records r ON r.id = rt.record_id AND r.is_trashed = 0",
        );
        let mut p: Vec<SqlParam> = Vec::new();
        if favorites_only {
            sql.append(" AND r.is_favorite = 1");
        }
        if let Some(ct) = content_type {
            if !ct.is_empty() && !str_eq(ct, "all") {
                sql.append(" AND r.content_type = ?");
                p.push(SqlParam::Text(ct.to_owned()));
            }
        }
        proof {
            reveal_strlit("all");
            assert(params_view(p@) =~= tag_filter_values(content_type));
        }
        sql.append(" GROUP BY t.id ORDER BY t.name");
        let rows = self.query(sql.as_str(), &p)?;
        assert(self.log() == old(self).log().push(read_of(sql@, params_view(p@), rows@)));
        match tag_info_rows(&rows) {
            Some(v) => Ok(v),
            None => Err(crate::records::bad_row()),
        }
    }

    /// Records linked to tag `tag_id`.
    fn records_linked_to_tag(&mut self, tag_id: i64) -> (r: Result<Vec<i64>, DbError>)
        ensures
            final(self).frame(*old(self)),
    {
        let mut p: Vec<SqlParam> = Vec::new();
        p.push(SqlParam::Int(tag_id));
        let rows = self.query("SELECT record_id FROM record_tags WHERE tag_id = ?", &p)?;
        match crate::upkeep::id_column(&rows) {
            Some(ids) => Ok(ids),
            None => Err(crate::records::bad_row()),
        }
    }

    /// Create a tag, stamped as edited now (a deletion tombstone of the same
    /// name is dropped: the user re-created it); its id.
    pub fn create_tag(&mut self, name: &str, color: &str) -> (r: Result<i64, DbError>)
        ensures
            final(self).frame(*old(self)),
            r matches Ok(id) ==> exists|now: Seq<char>| {
                let sent = final(self).sent_since(*old(self));
                &&& sent.len() == 3
                &&& is_run(
                    sent[0],
                    TAG_CREATE_SQL@,
                    #[trigger] texts3(name@, color@, now),
                )
                &&& sent[1] == Sent::Rowid(id)
                &&& is_run(sent[2], TAG_TOMBSTONE_DELETE_SQL@, seq![SqlValue::Text(name@)])
            },
    {
        let now = rfc3339_in(0);
        let mut p: Vec<SqlParam> = Vec::new();
        p.push(SqlParam::Text(name.to_owned()));
        p.push(SqlParam::Text(color.to_owned()));
        p.push(SqlParam::Text(now.clone()));
        assert(params_view(p@) =~= seq![SqlValue::Text(name@), SqlValue::Text(color@), SqlValue::Text(now@)]);
        self.exec(TAG_CREATE_SQL, &p)?;
        let ghost s1 = *self;
        let id = self.last_insert_rowid();
        let ghost s2 = *self;
        self.exec(TAG_TOMBSTONE_DELETE_SQL, &text_params(name))?;
        proof {
            let sent = self.sent_since(*old(self));
            let b = old(self).log().len() as int;
            assert(sent.len() == 3);
            assert(sent[0] == s1.log()[b]);
            assert(sent[1] == s2.log()[b + 1]);
            assert(is_run(sent[0], TAG_CREATE_SQL@, texts3(name@, color@, now@)));
        }
        Ok(id)
    }

    /// Rename / recolor a tag, stamped as edited now. The records' own
    /// `updated_at` is left alone (tag definitions sync on their own); their
    /// full-text rows are rebuilt when the name changed.
    pub fn update_tag(&mut self, id: i64, name: &str, color: &str) -> (r: Result<(), DbError>)
        ensures
            final(self).frame(*old(self)),
            r is Ok ==> exists|now: Seq<char>|
                sent_run(
                    final(self).sent_since(*old(self)),
                    TAG_UPDATE_SQL@,
                    #[trigger] texts3_int(name@, color@, now, id as int),
                ),
    {
        let mut q: Vec<SqlParam> = Vec::new();
        q.push(SqlParam::Int(id));
        q.push(SqlParam::Text(name.to_owned()));
        let renamed = match self.query_int("SELECT name != ?2 FROM tags WHERE id = ?1", &q)? {
            Some(v) => v != 0,
            None => false,
        };
        let now = rfc3339_in(0);
        let mut p: Vec<SqlParam> = Vec::new();
        p.push(SqlParam::Text(name.to_owned()));
        p.push(SqlParam::Text(color.to_owned()));
        p.push(SqlParam::Text(now.clone()));
        p.push(SqlParam::Int(id));
        let ghost vals = texts3_int(name@, color@, now@, id as int);
        assert(params_view(p@) =~= vals);
        self.exec(TAG_UPDATE_SQL, &p)?;
        let ghost s1 = *self;
        proof {
            lemma_last_run(*old(self), s1, TAG_UPDATE_SQL@, vals);
        }
        if renamed {
            let ids = self.records_linked_to_tag(id)?;
            self.refresh_records_fts_batch(&ids)?;
            proof {
                lemma_sent_grows(*old(self), s1, *self);
            }
        }
        Ok(())
    }

    /// Delete a tag: its links go with it, the linked records' full-text
    /// rows are rebuilt, and a tombstone stamped now tells other devices.
    pub fn delete_tag(&mut self, id: i64) -> (r: Result<(), DbError>)
        ensures
            final(self).frame(*old(self)),
            r is Ok ==> {
                let sent = final(self).sent_since(*old(self));
                &&& sent_run(sent, TAG_UNLINK_ALL_SQL@, seq![SqlValue::Int(id as int)])
                &&& sent_run(sent, TAG_DELETE_SQL@, seq![SqlValue::Int(id as int)])
                &&& exists|rows: Seq<Vec<SqlCell>>|
                    #[trigger] logged(sent, read_of(TAG_NAME_SQL@, seq![SqlValue::Int(id as int)], rows))
                        && (first_text_spec(rows) matches Some(n) ==> exists|now: Seq<char>|
                        sent_run(sent, TAG_TOMBSTONE_UPSERT_SQL@, #[trigger] texts2(n, now)))
            },
    {
        let ids = self.records_linked_to_tag(id)?;
        let ghost s0 = *self;
        let p = id_param(id);
        let rows = self.query(TAG_NAME_SQL, &p)?;
        let ghost s1 = *self;
        let ghost rd = read_of(TAG_NAME_SQL@, seq![SqlValue::Int(id as int)], rows@);
        proof {
            assert(s1.log().last() == rd);
            lemma_last_logged(s0, s1);
            lemma_sent_grows(*old(self), s0, s1);
        }
        let mut s2 = Ghost(*self);
        let mut tomb: Ghost<Seq<SqlValue>> = Ghost(Seq::empty());
        let mut tnow: Ghost<Seq<char>> = Ghost(Seq::empty());
        if let Some(n) = crate::sqlite::first_text(&rows) {
            let now = rfc3339_in(0);
            self.exec(TAG_TOMBSTONE_UPSERT_SQL, &text_text_params(n.as_str(), now.as_str()))?;
            proof {
                lemma_last_run(s1, *self, TAG_TOMBSTONE_UPSERT_SQL@, texts2(n@, now@));
                lemma_sent_grows(*old(self), s1, *self);
                s2@ = *self;
                tomb@ = texts2(n@, now@);
                tnow@ = now@;
            }
        }
        self.exec(TAG_UNLINK_ALL_SQL, &id_param(id))?;
        let ghost s3 = *self;
        proof {
            lemma_last_run(s2@, s3, TAG_UNLINK_ALL_SQL@, seq![SqlValue::Int(id as int)]);
        }
        self.exec(TAG_DELETE_SQL, &id_param(id))?;
        let ghost s4 = *self;
        proof {
            lemma_last_run(s3, s4, TAG_DELETE_SQL@, seq![SqlValue::Int(id as int)]);
        }
        let res = self.refresh_records_fts_batch(&ids);
        proof {
            if res is Ok {
                lemma_sent_grows(s2@, s3, s4);
                lemma_sent_grows(s2@, s4, *self);
                lemma_sent_grows(s1, s2@, s3);
                lemma_sent_grows(s1, s3, s4);
                lemma_sent_grows(s1, s4, *self);
                lemma_sent_grows(s3, s4, *self);
                lemma_sent_grows(*old(self), s2@, s3);
                lemma_sent_grows(*old(self), s3, s4);
                lemma_sent_grows(*old(self), s4, *self);
                lemma_sent_grows(*old(self), s3, *self);
                lemma_sent_grows(*old(self), s2@, *self);
                lemma_sent_grows(*old(self), s1, *self);
                let sent = self.sent_since(*old(self));
                assert(logged(sent, rd));
                assert(sent_run(sent, TAG_UNLINK_ALL_SQL@, seq![SqlValue::Int(id as int)]));
                assert(sent_run(sent, TAG_DELETE_SQL@, seq![SqlValue::Int(id as int)]));
                if first_text_spec(rows@) is Some {
                    assert(sent_run(s2@.sent_since(*old(self)), TAG_TOMBSTONE_UPSERT_SQL@, tomb@));
                    assert(sent_run(sent, TAG_TOMBSTONE_UPSERT_SQL@, tomb@));
                    assert(tomb@ == texts2(first_text_spec(rows@)->0, tnow@));
                    assert(sent_run(sent, TAG_TOMBSTONE_UPSERT_SQL@, texts2(first_text_spec(rows@)->0, tnow@)));
                }
            }
        }
        res
    }

    /// Stamp record `id` as edited now.
    fn touch_record(&mut self, id: i64) -> (r: Result<(), DbError>)
        ensures
            final(self).frame(*old(self)),
            r is Ok ==> exists|now: Seq<char>|
                sent_run(final(self).sent_since(*old(self)), RECORD_STAMP_SQL@, #[trigger] text_int(now, id as int)),
    {
        let now = rfc3339_in(0);
        self.exec(RECORD_STAMP_SQL, &text_id_params(now.as_str(), id))?;
        proof {
            lemma_last_run(*old(self), *self, RECORD_STAMP_SQL@, text_int(now@, id as int));
        }
        Ok(())
    }

    /// Link a tag to a record; the record is stamped as edited when the
    /// link is new.
    pub fn add_tag_to_record(&mut self, record_id: i64, tag_id: i64) -> (r: Result<(), DbError>)
        ensures
            final(self).frame(*old(self)),
            r is Ok ==> relinked(final(self).sent_since(*old(self)), RECORD_LINK_SQL@, record_id as int, tag_id as int),
    {
        let n = self.exec(RECORD_LINK_SQL, &int_int_params(record_id, tag_id))?;
        let ghost s1 = *self;
        let ghost e0 = self.log().last();
        assert(self.sent_since(*old(self)) =~= seq![e0]);
        if n > 0 {
            self.touch_record(record_id)?;
        }
        let ghost s2 = *self;
        let res = self.refresh_record_fts(record_id);
        proof {
            if res is Ok {
                lemma_sent_grows(*old(self), s1, s2);
                lemma_sent_grows(s1, s2, *self);
                lemma_sent_grows(*old(self), s2, *self);
                let sent = self.sent_since(*old(self));
                assert(sent[0] == e0);
                let f = self.sent_since(s2);
                assert(is_run(f[1], crate::bundle::FTS_INSERT_SQL@, seq![SqlValue::Int(record_id as int)]));
                assert(sent_run(f, crate::bundle::FTS_INSERT_SQL@, seq![SqlValue::Int(record_id as int)]));
                if n > 0 {
                    let now = choose|now: Seq<char>| sent_run(s2.sent_since(s1), RECORD_STAMP_SQL@, #[trigger] text_int(now, record_id as int));
                    assert(sent_run(sent, RECORD_STAMP_SQL@, text_int(now, record_id as int)));
                }
            }
        }
        res
    }

    /// Unlink a tag from a record; the record is stamped as edited when a
    /// link was removed.
    pub fn remove_tag_from_record(&mut self, record_id: i64, tag_id: i64) -> (r: Result<(), DbError>)
        ensures
            final(self).frame(*old(self)),
            r is Ok ==> relinked(final(self).sent_since(*old(self)), RECORD_UNLINK_SQL@, record_id as int, tag_id as int),
    {
        let n = self.exec(RECORD_UNLINK_SQL, &int_int_params(record_id, tag_id))?;
        let ghost s1 = *self;
        let ghost e0 = self.log().last();
        assert(self.sent_since(*old(self)) =~= seq![e0]);
        if n > 0 {
            self.touch_record(record_id)?;
        }
        let ghost s2 = *self;
        let res = self.refresh_record_fts(record_id);
        proof {
            if res is Ok {
                lemma_sent_grows(*old(self), s1, s2);
                lemma_sent_grows(s1, s2, *self);
                lemma_sent_grows(*old(self), s2, *self);
                let sent = self.sent_since(*old(self));
                assert(sent[0] == e0);
                let f = self.sent_since(s2);
                assert(is_run(f[1], crate::bundle::FTS_INSERT_SQL@, seq![SqlValue::Int(record_id as int)]));
                assert(sent_run(f, crate::bundle::FTS_INSERT_SQL@, seq![SqlValue::Int(record_id as int)]));
                if n > 0 {
                    let now = choose|now: Seq<char>| sent_run(s2.sent_since(s1), RECORD_STAMP_SQL@, #[trigger] text_int(now, record_id as int));
                    assert(sent_run(sent, RECORD_STAMP_SQL@, text_int(now, record_id as int)));
                }
            }
        }
        res
    }

    /// Replace the tags of a record (one transaction); the record is stamped
    /// as edited only when its set of tags changed.
    pub fn set_record_tags(&mut self, record_id: i64, tag_ids: &[i64]) -> (r: Result<(), DbError>)
        ensures
            final(self).frame(*old(self)),
            r is Ok ==> {
                let sent = final(self).sent_since(*old(self));
                &&& sent_run(sent, RECORD_UNLINK_ALL_SQL@, seq![SqlValue::Int(record_id as int)])
                &&& forall|k: int|
                    0 <= k < tag_ids@.len() ==> sent_run(
                        sent,
                        RECORD_LINK_SQL@,
                        ints2(record_id as int, #[trigger] tag_ids@[k] as int),
                    )
                &&& sent_run(sent, crate::bundle::FTS_INSERT_SQL@, seq![SqlValue::Int(record_id as int)])
                &&& sent.last() == Sent::Batch("COMMIT"@)
            },
    {
        self.exec_batch("BEGIN")?;
        let ghost s1 = *self;
        let res = self.replace_record_tags(record_id, tag_ids);
        let ghost s2 = *self;
        match res {
            Ok(()) => match self.exec_batch("COMMIT") {
                Ok(()) => {
                    proof {
                        lemma_sent_grows(*old(self), s1, s2);
                        lemma_sent_grows(*old(self), s2, *self);
                        assert forall|k: int| 0 <= k < tag_ids@.len() implies sent_run(
                            self.sent_since(*old(self)),
                            RECORD_LINK_SQL@,
                            ints2(record_id as int, #[trigger] tag_ids@[k] as int),
                        ) by {
                            assert(sent_run(s2.sent_since(s1), RECORD_LINK_SQL@, ints2(record_id as int, tag_ids@[k] as int)));
                        }
                        assert(self.sent_since(*old(self)).last() == self.log().last());
                    }
                    Ok(())
                },
                Err(e) => {
                    let _ = self.exec_batch("ROLLBACK");
                    Err(e)
                },
            },
            Err(e) => {
                let _ = self.exec_batch("ROLLBACK");
                Err(e)
            },
        }
    }

    fn replace_record_tags(&mut self, record_id: i64, tag_ids: &[i64]) -> (r: Result<(), DbError>)
        ensures
            final(self).frame(*old(self)),
            r is Ok ==> {
                let sent = final(self).sent_since(*old(self));
                &&& sent_run(sent, RECORD_UNLINK_ALL_SQL@, seq![SqlValue::Int(record_id as int)])
                &&& forall|k: int|
                    0 <= k < tag_ids@.len() ==> sent_run(
                        sent,
                        RECORD_LINK_SQL@,
                        ints2(record_id as int, #[trigger] tag_ids@[k] as int),
                    )
                &&& sent_run(sent, crate::bundle::FTS_INSERT_SQL@, seq![SqlValue::Int(record_id as int)])
            },
    {
        let d = id_param(record_id);
        let rows = self.query("SELECT tag_id FROM record_tags WHERE record_id = ?", &d)?;
        let current = match crate::upkeep::id_column(&rows) {
            Some(ids) => ids,
            None => {
                return Err(crate::records::bad_row());
            },
        };
        let changed = !same_id_set(&current, tag_ids);
        let ghost s0 = *self;
        self.exec(RECORD_UNLINK_ALL_SQL, &d)?;
        proof {
            lemma_last_run(s0, *self, RECORD_UNLINK_ALL_SQL@, seq![SqlValue::Int(record_id as int)]);
            lemma_sent_grows(*old(self), s0, *self);
        }
        let mut i: usize = 0;
        while i < tag_ids.len()
            invariant
                self.frame(*old(self)),
                0 <= i <= tag_ids@.len(),
                sent_run(self.sent_since(*old(self)), RECORD_UNLINK_ALL_SQL@, seq![SqlValue::Int(record_id as int)]),
                forall|k: int|
                    0 <= k < i ==> sent_run(
                        self.sent_since(*old(self)),
                        RECORD_LINK_SQL@,
                        ints2(record_id as int, #[trigger] tag_ids@[k] as int),
                    ),
            decreases tag_ids.len() - i,
        {
            let ghost sk = *self;
            self.exec(RECORD_LINK_SQL, &int_int_params(record_id, tag_ids[i]))?;
            proof {
                lemma_last_run(sk, *self, RECORD_LINK_SQL@, ints2(record_id as int, tag_ids@[i as int] as int));
                lemma_sent_grows(*old(self), sk, *self);
            }
            i = i + 1;
        }
        let ghost s1 = *self;
        if changed {
            self.touch_record(record_id)?;
        }
        let ghost s2 = *self;
        let res = self.refresh_record_fts(record_id);
        proof {
            if res is Ok {
                lemma_sent_grows(*old(self), s1, s2);
                lemma_sent_grows(*old(self), s2, *self);
                let f = self.sent_since(s2);
                assert(is_run(f[1], crate::bundle::FTS_INSERT_SQL@, seq![SqlValue::Int(record_id as int)]));
                assert(sent_run(f, crate::bundle::FTS_INSERT_SQL@, seq![SqlValue::Int(record_id as int)]));
            }
        }
        res
    }

    /// Tag names of record `id`.
    pub fn get_record_tag_names(&mut self, record_id: i64) -> (r: Result<Vec<String>, DbError>)
        ensures
            final(self).frame(*old(self)),
            r matches Ok(v) ==> exists|rows: Seq<Vec<SqlCell>>|
                final(self).log() == old(self).log().push(
                    #[trigger] read_of(crate::bundle::RECORD_TAG_NAMES_SQL@, seq![SqlValue::Int(record_id as int)], rows),
                ) && strings_view(v@) == crate::bundle::first_texts(rows),
    {
        self.record_tag_names(record_id)
    }
}

/// Whether `x` occurs in `ids`.
pub fn contains_id(ids: &[i64], x: i64) -> (r: bool)
    ensures
        r == ids@.contains(x),
{
    let mut i: usize = 0;
    while i < ids.len()
        invariant
            0 <= i <= ids.len(),
            forall|j: int| 0 <= j < i ==> ids@[j] != x,
        decreases ids.len() - i,
    {
        if ids[i] == x {
            return true;
        }
        i = i + 1;
    }
    false
}

/// Whether the two id lists hold the same ids (order and repeats aside).
pub fn same_id_set(a: &Vec<i64>, b: &[i64]) -> (r: bool)
    ensures
        r == (forall|x: i64| a@.contains(x) <==> b@.contains(x)),
{
    let mut i: usize = 0;
    while i < a.len()
        invariant
            0 <= i <= a.len(),
            forall|j: int| 0 <= j < i ==> b@.contains(#[trigger] a@[j]),
        decreases a.len() - i,
    {
        if !contains_id(b, a[i]) {
            proof {
                assert(a@.contains(a@[i as int]));
            }
            return false;
        }
        i = i + 1;
    }
    let mut k: usize = 0;
    while k < b.len()
        invariant
            0 <= k <= b.len(),
            forall|j: int| 0 <= j < a@.len() ==> b@.contains(#[trigger] a@[j]),
            forall|j: int| 0 <= j < k ==> a@.contains(#[trigger] b@[j]),
        decreases b.len() - k,
    {
        if !contains_id(a.as_slice(), b[k]) {
            proof {
                assert(b@.contains(b@[k as int]));
            }
            return false;
        }
        k = k + 1;
    }
    proof {
        assert forall|x: i64| a@.contains(x) <==> b@.contains(x) by {
            if a@.contains(x) {
                let j = choose|j: int| 0 <= j < a@.len() && a@[j] == x;
                assert(b@.contains(a@[j]));
            }
            if b@.contains(x) {
                let j = choose|j: int| 0 <= j < b@.len() && b@[j] == x;
                assert(a@.contains(b@[j]));
            }
        }
    }
    true
}

} // verus!
