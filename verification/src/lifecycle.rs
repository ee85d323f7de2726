//! Record lifecycle in the store: favorite / pin / alias, trash and
//! restore, permanent deletion, bulk clean-up, and which media files are
//! left unreferenced by a deletion. Every explicit deletion leaves a sync
//! tombstone so other devices learn about it.
use vstd::prelude::*;

use crate::ai::{sanitized_summary, ALIAS_MAX_CHARS};
use crate::bundle::{contains_name, rfc3339_in, strings_view};
use crate::db::{ClipboardDb, DEFAULT_TAGS_INSERT, lemma_sent_grows, lemma_last_logged, logged, text_int, is_run, lemma_last_run, never_runs, read_of, sent_run};
use crate::query::{id_placeholders, placeholders, SqlParam, params_view, SqlValue};
use crate::records::{cell_bool, cell_opt_text, cell_text, opt_view, read_bool, read_int, read_opt_text, read_text};
use crate::sqlite::{exec, exec_batch, query, query_int, DbError, SqlCell, runs, Sent, first_int_spec, first_text_spec};
use crate::text::{string_of, take_chars, trim_to_chars};
use crate::capture::{id_param, text_id_params};
use crate::tombstones::{ACK_KEY, lemma_tombstoned_grows, tombstoned};

verus! {

/// Media path pairs of some rows.
pub type MediaPairs = Vec<(Option<String>, Option<String>)>;

/// Trash one record: unpinned, no expiry, trash time `?1`.
pub const TRASH_ONE_SQL: &'static str = "UPDATE records SET is_trashed = 1, is_pinned = 0, auto_expire_at = NULL, updated_at = ? WHERE id = ?";

/// Restore one record at time `?1`.
pub const RESTORE_ONE_SQL: &'static str = "UPDATE records SET is_trashed = 0, updated_at = ? WHERE id = ?";

/// Delete one row, whatever its state.
pub const DELETE_ROW_SQL: &'static str = "DELETE FROM records WHERE id = ?";

/// Drop the tombstone of one hash.
pub const DELETE_TOMBSTONE_SQL: &'static str = "DELETE FROM sync_tombstones WHERE hash = ?";

/// Delete one row only while it is in the trash.
pub const PERMANENT_DELETE_SQL: &'static str = "DELETE FROM records WHERE id = ? AND is_trashed = 1";

/// Flip the favorite flag of one row and read the new value back.
pub const TOGGLE_FAVORITE_SQL: &'static str = "UPDATE records SET is_favorite = CASE WHEN is_favorite = 1 THEN 0 ELSE 1 END
             WHERE id = ? RETURNING is_favorite";

/// Flip the pinned flag of one row and read the new value back.
pub const TOGGLE_PIN_SQL: &'static str = "UPDATE records SET is_pinned = CASE WHEN is_pinned = 1 THEN 0 ELSE 1 END
             WHERE id = ? RETURNING is_pinned";

/// `(hash, is_sensitive)` of one row.
pub const TRASH_META_SQL: &'static str = "SELECT hash, is_sensitive FROM records WHERE id = ?";

/// `(hash, is_trashed)` of one row.
pub const RESTORE_META_SQL: &'static str = "SELECT hash, is_trashed FROM records WHERE id = ?";

/// Whether an active row holds a hash.
pub const ACTIVE_HASH_SQL: &'static str = "SELECT 1 FROM records WHERE hash = ? AND is_trashed = 0 LIMIT 1";

/// `(hash, is_sensitive)` of one row while it is in the trash.
pub const TRASHED_META_SQL: &'static str = "SELECT hash, is_sensitive FROM records WHERE id = ? AND is_trashed = 1";

/// Number of rows in the trash.
pub const TRASH_COUNT_SQL: &'static str = "SELECT COUNT(*) FROM records WHERE is_trashed = 1";

/// The rows in the trash, to tombstone.
pub const EMPTY_TRASH_SELECT_SQL: &'static str = "SELECT id, hash, is_sensitive FROM records WHERE is_trashed = 1";

/// Delete the rows in the trash.
pub const EMPTY_TRASH_DELETE_SQL: &'static str = "DELETE FROM records WHERE is_trashed = 1";

/// The active rows that are not favorites, to tombstone.
pub const NON_FAVORITE_SELECT_SQL: &'static str = "SELECT id, hash, is_sensitive FROM records
                 WHERE is_favorite = 0 AND is_trashed = 0";

/// Delete the active rows that are not favorites.
pub const NON_FAVORITE_DELETE_SQL: &'static str = "DELETE FROM records WHERE is_favorite = 0 AND is_trashed = 0";

/// Every media pair still referenced by a row.
pub const MEDIA_ALL_SQL: &'static str = "SELECT media_path, thumb_path FROM records
                 WHERE media_path IS NOT NULL OR thumb_path IS NOT NULL";

/// Statements of a full wipe, after the media read, in order.
pub const WIPE_RECORDS_SQL: &'static str = "DELETE FROM records";
pub const WIPE_TAGS_SQL: &'static str = "DELETE FROM tags";
pub const WIPE_SEARCH_SQL: &'static str = "DELETE FROM search_history";
pub const WIPE_SYNC_SQL: &'static str = "DELETE FROM sync_history";
pub const WIPE_TOMBSTONES_SQL: &'static str = "DELETE FROM sync_tombstones";
pub const WIPE_TAG_TOMBSTONES_SQL: &'static str = "DELETE FROM tag_tombstones";
pub const WIPE_ACK_SQL: &'static str = "DELETE FROM settings WHERE key = ?";

/// Since `prev`, `cur` swept the rows `select_sql` picked with
/// `delete_sql`, which deleted `n` rows.
pub open spec fn swept_since(prev: ClipboardDb, cur: ClipboardDb, select_sql: Seq<char>, delete_sql: Seq<char>, n: int) -> bool {
    exists|rows: Seq<Vec<SqlCell>>, now: Seq<char>|
        #[trigger] swept(cur.sent_since(prev), select_sql, delete_sql, rows, now, n)
}

/// `log` is a full wipe: the media pairs `m` were read first, then every
/// record, tag, search and sync history entry, tombstone and the tombstone
/// acknowledgement were deleted, and the built-in tags put back.
pub open spec fn wiped(log: Seq<Sent>, m: Seq<(Option<String>, Option<String>)>) -> bool {
    let e = Seq::<SqlValue>::empty();
    &&& log.len() == 9
    &&& exists|rows: Seq<Vec<SqlCell>>| {
        &&& log[0] == #[trigger] read_of(MEDIA_ALL_SQL@, e, rows)
        &&& m.len() == rows.len()
        &&& forall|k: int|
            0 <= k < m.len() ==> cell_opt_text(rows[k]@[0]) == Some(opt_view((#[trigger] m[k]).0))
                && cell_opt_text(rows[k]@[1]) == Some(opt_view(m[k].1))
    }
    &&& is_run(log[1], WIPE_RECORDS_SQL@, e)
    &&& is_run(log[2], WIPE_TAGS_SQL@, e)
    &&& log[3] == Sent::Batch(DEFAULT_TAGS_INSERT@)
    &&& is_run(log[4], WIPE_SEARCH_SQL@, e)
    &&& is_run(log[5], WIPE_SYNC_SQL@, e)
    &&& is_run(log[6], WIPE_TOMBSTONES_SQL@, e)
    &&& is_run(log[7], WIPE_TAG_TOMBSTONES_SQL@, e)
    &&& is_run(log[8], WIPE_ACK_SQL@, seq![SqlValue::Text(ACK_KEY@)])
}

/// Bound values of a list of ids.
pub open spec fn id_values(ids: Seq<i64>) -> Seq<SqlValue> {
    ids.map_values(|x: i64| SqlValue::Int(x as int))
}

/// `prefix` followed by `(?, ?, …)` with `n` placeholders.
pub open spec fn in_list(prefix: Seq<char>, n: nat) -> Seq<char> {
    prefix + seq!['('] + crate::query::placeholders(n) + seq![')']
}

/// What a `RETURNING` clause's first integer means as a flag.
pub open spec fn returned_flag_spec(v: Option<i64>) -> Result<bool, DbError> {
    match v {
        Some(x) => Ok(x == 1),
        None => Err(DbError::NoRows),
    }
}

/// `log` is a sweep: `select_sql` read `rows` first; every selected row
/// `(id, hash, is_sensitive)` was tombstoned at `now`; `delete_sql` ran
/// last and deleted `n` rows.
pub open spec fn swept(
    log: Seq<Sent>,
    select_sql: Seq<char>,
    delete_sql: Seq<char>,
    rows: Seq<Vec<SqlCell>>,
    now: Seq<char>,
    n: int,
) -> bool {
    &&& log.len() > 0
    &&& log[0] == read_of(select_sql, Seq::empty(), rows)
    &&& log.last() == Sent::Ran(delete_sql, Seq::empty(), n)
    &&& forall|k: int|
        0 <= k < rows.len() ==> #[trigger] rows[k]@.len() >= 3 && cell_text(rows[k]@[1]) is Some
            && cell_bool(rows[k]@[2]) is Some && tombstoned(
            log,
            cell_text(rows[k]@[1])->0,
            now,
            cell_bool(rows[k]@[2])->0,
        )
}

/// The flag a `RETURNING` clause read back: set when it is 1; no row
/// means no record had the id.
pub fn returned_flag(v: Option<i64>) -> (r: Result<bool, DbError>)
    ensures
        r == returned_flag_spec(v),
{
    match v {
        Some(x) => Ok(x == 1),
        None => Err(DbError::NoRows),
    }
}

/// Whether one path of the pair is `p`.
pub open spec fn pair_mentions(pair: (Option<String>, Option<String>), p: Seq<char>) -> bool {
    (pair.0 matches Some(m) && m@ == p) || (pair.1 matches Some(t) && t@ == p)
}

/// Whether the non-empty path `p` occurs in the pairs.
pub open spec fn pairs_mention(pairs: Seq<(Option<String>, Option<String>)>, p: Seq<char>) -> bool {
    exists|k: int| 0 <= k < pairs.len() && pair_mentions(#[trigger] pairs[k], p)
}

/// Pushing keeps every element a sequence contains.
proof fn lemma_push_keeps(s: Seq<Seq<char>>, x: Seq<char>)
    ensures
        forall|p: Seq<char>| s.contains(p) ==> #[trigger] s.push(x).contains(p),
        s.push(x).contains(x),
{
    assert(s.push(x)[s.len() as int] == x);
    assert forall|p: Seq<char>| s.contains(p) implies #[trigger] s.push(x).contains(p) by {
        let j = choose|j: int| 0 <= j < s.len() && s[j] == p;
        assert(s.push(x)[j] == p);
    }
}

/// The distinct non-empty paths the pairs mention.
pub fn media_files_of(pairs: &MediaPairs) -> (r: Vec<String>)
    ensures
        forall|i: int| 0 <= i < r@.len() ==> #[trigger] r@[i]@.len() > 0 && pairs_mention(pairs@, r@[i]@),
        forall|i: int, j: int| 0 <= i < j < r@.len() ==> r@[i]@ != r@[j]@,
        forall|k: int, p: Seq<char>|
            0 <= k < pairs@.len() && p.len() > 0 && #[trigger] pair_mentions(pairs@[k], p)
                ==> strings_view(r@).contains(p),
{
    let mut out: Vec<String> = Vec::new();
    let mut k: usize = 0;
    while k < pairs.len()
        invariant
            0 <= k <= pairs.len(),
            forall|i: int| 0 <= i < out@.len() ==> #[trigger] out@[i]@.len() > 0 && pairs_mention(pairs@, out@[i]@),
            forall|i: int, j: int| 0 <= i < j < out@.len() ==> out@[i]@ != out@[j]@,
            forall|q: int, p: Seq<char>|
                0 <= q < k && p.len() > 0 && #[trigger] pair_mentions(pairs@[q], p)
                    ==> strings_view(out@).contains(p),
        decreases pairs.len() - k,
    {
        let ghost start = strings_view(out@);
        if let Some(m) = &pairs[k].0 {
            if !m.as_str().is_empty() && !contains_name(&out, m.as_str()) {
                proof {
                    assert(pair_mentions(pairs@[k as int], m@));
                    assert forall|i: int| 0 <= i < out@.len() implies out@[i]@ != m@ by {
                        if out@[i]@ == m@ {
                            assert(strings_view(out@)[i] == m@);
                        }
                    }
                }
                let ghost before = out@;
                out.push(m.clone());
                proof {
                    assert(strings_view(out@) =~= strings_view(before).push(m@));
                    lemma_push_keeps(strings_view(before), m@);
                    assert(pairs_mention(pairs@, m@));
                    assert forall|i: int| 0 <= i < out@.len() implies #[trigger] out@[i]@.len() > 0
                        && pairs_mention(pairs@, out@[i]@) by {
                        if i < before.len() {
                            assert(out@[i] == before[i]);
                        }
                    }
                }
            }
        }
        let ghost mid = strings_view(out@);
        assert(forall|p: Seq<char>| start.contains(p) ==> mid.contains(p));
        assert(match pairs@[k as int].0 {
            Some(m) => m@.len() > 0 ==> mid.contains(m@),
            None => true,
        });
        if let Some(t) = &pairs[k].1 {
            if !t.as_str().is_empty() && !contains_name(&out, t.as_str()) {
                proof {
                    assert(pair_mentions(pairs@[k as int], t@));
                    assert forall|i: int| 0 <= i < out@.len() implies out@[i]@ != t@ by {
                        if out@[i]@ == t@ {
                            assert(strings_view(out@)[i] == t@);
                        }
                    }
                }
                let ghost before = out@;
                out.push(t.clone());
                proof {
                    assert(strings_view(out@) =~= strings_view(before).push(t@));
                    lemma_push_keeps(strings_view(before), t@);
                    assert(pairs_mention(pairs@, t@));
                    assert forall|i: int| 0 <= i < out@.len() implies #[trigger] out@[i]@.len() > 0
                        && pairs_mention(pairs@, out@[i]@) by {
                        if i < before.len() {
                            assert(out@[i] == before[i]);
                        }
                    }
                }
            }
        }
        assert(forall|p: Seq<char>| mid.contains(p) ==> strings_view(out@).contains(p));
        assert(match pairs@[k as int].1 {
            Some(t) => t@.len() > 0 ==> strings_view(out@).contains(t@),
            None => true,
        });
        assert forall|q: int, p: Seq<char>|
            0 <= q < k + 1 && p.len() > 0 && #[trigger] pair_mentions(pairs@[q], p)
                implies strings_view(out@).contains(p) by {
            if q < k {
                assert(start.contains(p));
            } else {
                assert(q == k);
            }
        }
        k = k + 1;
    }
    out
}

/// `files` minus those in `referenced`, in order.
pub fn unreferenced_files(files: &Vec<String>, referenced: &Vec<String>) -> (r: Vec<String>)
    ensures
        forall|i: int|
            0 <= i < r@.len() ==> strings_view(files@).contains(#[trigger] r@[i]@)
                && !strings_view(referenced@).contains(r@[i]@),
        forall|i: int|
            0 <= i < files@.len() && !strings_view(referenced@).contains(#[trigger] files@[i]@)
                ==> strings_view(r@).contains(files@[i]@),
{
    let mut out: Vec<String> = Vec::new();
    let mut k: usize = 0;
    while k < files.len()
        invariant
            0 <= k <= files.len(),
            forall|i: int|
                0 <= i < out@.len() ==> strings_view(files@).contains(#[trigger] out@[i]@)
                    && !strings_view(referenced@).contains(out@[i]@),
            forall|i: int|
                0 <= i < k && !strings_view(referenced@).contains(#[trigger] files@[i]@)
                    ==> strings_view(out@).contains(files@[i]@),
        decreases files.len() - k,
    {
        if !contains_name(referenced, files[k].as_str()) {
            proof {
                assert(strings_view(files@)[k as int] == files@[k as int]@);
            }
            let ghost before = out@;
            out.push(files[k].clone());
            proof {
                assert(strings_view(out@)[before.len() as int] == files@[k as int]@);
                assert forall|i: int|
                    0 <= i < k && !strings_view(referenced@).contains(#[trigger] files@[i]@)
                        implies strings_view(out@).contains(files@[i]@) by {
                    let j = choose|j: int|
                        0 <= j < strings_view(before).len() && strings_view(before)[j] == files@[i]@;
                    assert(strings_view(out@)[j] == files@[i]@);
                }
            }
        }
        k = k + 1;
    }
    out
}

/// Display alias as stored: trimmed, at most 80 characters.
pub fn capped_alias(alias: &str) -> (r: String)
    ensures
        r@ == sanitized_summary(alias@),
{
    let t = trim_to_chars(alias);
    string_of(&take_chars(&t, ALIAS_MAX_CHARS))
}

/// Whether `c` is a `(hash, is_sensitive)` row.
pub open spec fn hash_flag_row_ok(c: Seq<SqlCell>) -> bool {
    c.len() >= 2 && cell_text(c[0]) is Some && cell_bool(c[1]) is Some
}

/// Rows `(hash, is_sensitive)`; `None` when a row has other types.
fn hash_flag_rows(rows: &Vec<Vec<SqlCell>>) -> (r: Option<Vec<(String, bool)>>)
    ensures
        r is Some <==> forall|k: int| 0 <= k < rows@.len() ==> hash_flag_row_ok(#[trigger] rows@[k]@),
        r matches Some(v) ==> v@.len() == rows@.len() && forall|k: int|
            0 <= k < v@.len() ==> cell_text(rows@[k]@[0]) == Some((#[trigger] v@[k]).0@)
                && cell_bool(rows@[k]@[1]) == Some(v@[k].1),
{
    let mut out: Vec<(String, bool)> = Vec::new();
    let mut i: usize = 0;
    while i < rows.len()
        invariant
            0 <= i <= rows.len(),
            out@.len() == i,
            forall|k: int| 0 <= k < i ==> hash_flag_row_ok(#[trigger] rows@[k]@),
            forall|k: int|
                0 <= k < i ==> cell_text(rows@[k]@[0]) == Some((#[trigger] out@[k]).0@) && cell_bool(
                    rows@[k]@[1],
                ) == Some(out@[k].1),
        decreases rows.len() - i,
    {
        if rows[i].len() < 2 {
            return None;
        }
        let h = match read_text(&rows[i][0]) {
            Some(v) => v,
            None => {
                return None;
            },
        };
        let f = match read_bool(&rows[i][1]) {
            Some(v) => v,
            None => {
                return None;
            },
        };
        out.push((h, f));
        i = i + 1;
    }
    Some(out)
}

/// Whether `c` is a `(media_path, thumb_path)` row of nullable texts.
pub open spec fn media_row_ok(c: Seq<SqlCell>) -> bool {
    c.len() >= 2 && cell_opt_text(c[0]) is Some && cell_opt_text(c[1]) is Some
}

/// Rows `(media_path, thumb_path)`; `None` when a row has other types.
fn media_rows(rows: &Vec<Vec<SqlCell>>) -> (r: Option<MediaPairs>)
    ensures
        r is Some <==> forall|k: int| 0 <= k < rows@.len() ==> media_row_ok(#[trigger] rows@[k]@),
        r matches Some(v) ==> v@.len() == rows@.len() && forall|k: int|
            0 <= k < v@.len() ==> cell_opt_text(rows@[k]@[0]) == Some(opt_view((#[trigger] v@[k]).0))
                && cell_opt_text(rows@[k]@[1]) == Some(opt_view(v@[k].1)),
{
    let mut out: MediaPairs = Vec::new();
    let mut i: usize = 0;
    while i < rows.len()
        invariant
            0 <= i <= rows.len(),
            out@.len() == i,
            forall|k: int| 0 <= k < i ==> media_row_ok(#[trigger] rows@[k]@),
            forall|k: int|
                0 <= k < i ==> cell_opt_text(rows@[k]@[0]) == Some(opt_view((#[trigger] out@[k]).0))
                    && cell_opt_text(rows@[k]@[1]) == Some(opt_view(out@[k].1)),
        decreases rows.len() - i,
    {
        if rows[i].len() < 2 {
            return None;
        }
        let m = match read_opt_text(&rows[i][0]) {
            Some(v) => v,
            None => {
                return None;
            },
        };
        let t = match read_opt_text(&rows[i][1]) {
            Some(v) => v,
            None => {
                return None;
            },
        };
        out.push((m, t));
        i = i + 1;
    }
    Some(out)
}

pub(crate) fn ints_as_params(ids: &[i64]) -> (r: Vec<SqlParam>)
    ensures
        r@.len() == ids@.len(),
        forall|k: int| 0 <= k < r@.len() ==> #[trigger] r@[k] == SqlParam::Int(ids@[k]),
{
    let mut out: Vec<SqlParam> = Vec::new();
    let mut i: usize = 0;
    while i < ids.len()
        invariant
            0 <= i <= ids.len(),
            out@.len() == i,
            forall|k: int| 0 <= k < i ==> #[trigger] out@[k] == SqlParam::Int(ids@[k]),
        decreases ids.len() - i,
    {
        out.push(SqlParam::Int(ids[i]));
        i = i + 1;
    }
    out
}

/// `prefix` + `(?,?,...)` for `n` ids + `suffix`.
pub(crate) fn in_list_sql(prefix: &str, n: usize, suffix: &str) -> (r: String)
    ensures
        r@ == prefix@ + seq!['('] + placeholders(n as nat) + seq![')'] + suffix@,
{
    let mut s = String::new();
    s.append(prefix);
    s.append("(");
    let ph = id_placeholders(n);
    s.append(ph.as_str());
    s.append(")");
    s.append(suffix);
    proof {
        reveal_strlit("(");
        reveal_strlit(")");
    }
    s
}

/// The statements of a restore are told apart by their text.
proof fn lemma_restore_sqls_differ()
    ensures
        DELETE_ROW_SQL@ != RESTORE_ONE_SQL@,
        DELETE_TOMBSTONE_SQL@ != RESTORE_ONE_SQL@,
        DELETE_TOMBSTONE_SQL@ != DELETE_ROW_SQL@,
{
    reveal_strlit("DELETE FROM records WHERE id = ?");
    reveal_strlit("UPDATE records SET is_trashed = 0, updated_at = ? WHERE id = ?");
    reveal_strlit("DELETE FROM sync_tombstones WHERE hash = ?");
    assert(DELETE_ROW_SQL@[0] != RESTORE_ONE_SQL@[0]);
    assert(DELETE_TOMBSTONE_SQL@[0] != RESTORE_ONE_SQL@[0]);
    assert(DELETE_TOMBSTONE_SQL@[12] != DELETE_ROW_SQL@[12]);
}

impl ClipboardDb {
    /// Flip the favorite flag of record `id`; its new value.
    pub fn toggle_favorite(&mut self, id: i64) -> (r: Result<bool, DbError>)
        ensures
            final(self).frame(*old(self)),
            !(r matches Err(DbError::Sql(_))) ==> exists|rows: Seq<Vec<SqlCell>>|
                final(self).log() == old(self).log().push(
                    #[trigger] read_of(TOGGLE_FAVORITE_SQL@, seq![SqlValue::Int(id as int)], rows),
                ) && r == returned_flag_spec(first_int_spec(rows)),
    {
        let p = id_param(id);
        let rows = self.query(TOGGLE_FAVORITE_SQL, &p)?;
        assert(self.log() == old(self).log().push(read_of(TOGGLE_FAVORITE_SQL@, seq![SqlValue::Int(id as int)], rows@)));
        returned_flag(crate::sqlite::first_int(&rows))
    }

    /// Flip the pinned flag of record `id`; its new value.
    pub fn toggle_pin(&mut self, id: i64) -> (r: Result<bool, DbError>)
        ensures
            final(self).frame(*old(self)),
            !(r matches Err(DbError::Sql(_))) ==> exists|rows: Seq<Vec<SqlCell>>|
                final(self).log() == old(self).log().push(
                    #[trigger] read_of(TOGGLE_PIN_SQL@, seq![SqlValue::Int(id as int)], rows),
                ) && r == returned_flag_spec(first_int_spec(rows)),
    {
        let p = id_param(id);
        let rows = self.query(TOGGLE_PIN_SQL, &p)?;
        assert(self.log() == old(self).log().push(read_of(TOGGLE_PIN_SQL@, seq![SqlValue::Int(id as int)], rows@)));
        returned_flag(crate::sqlite::first_int(&rows))
    }

    /// Set or clear the favorite flag of several records; rows changed.
    pub fn batch_set_favorite(&mut self, ids: &[i64], favorite: bool) -> (r: Result<usize, DbError>)
        ensures
            final(self).frame(*old(self)),
            ids@.len() == 0 ==> r matches Ok(0),
            ids@.len() > 0 && r is Ok ==> final(self).sent_since(*old(self)) == seq![
                Sent::Ran(
                    in_list("UPDATE records SET is_favorite = ? WHERE id IN "@, ids@.len()),
                    seq![SqlValue::Int(if favorite { 1 } else { 0 })] + id_values(ids@),
                    r->Ok_0 as int,
                ),
            ],
    {
        if ids.len() == 0 {
            return Ok(0);
        }
        let mut p: Vec<SqlParam> = Vec::new();
        p.push(SqlParam::Int(if favorite { 1 } else { 0 }));
        let mut i: usize = 0;
        while i < ids.len()
            invariant
                0 <= i <= ids@.len(),
                p@.len() == i + 1,
                p@[0] == SqlParam::Int(if favorite { 1 } else { 0 }),
                forall|k: int| 0 <= k < i ==> #[trigger] p@[k + 1] == SqlParam::Int(ids@[k]),
            decreases ids.len() - i,
        {
            p.push(SqlParam::Int(ids[i]));
            i = i + 1;
        }
        proof {
            assert forall|j: int| 1 <= j < p@.len() implies p@[j] == SqlParam::Int(ids@[j - 1]) by {
                assert(p@[(j - 1) + 1] == SqlParam::Int(ids@[j - 1]));
            }
            assert(params_view(p@) =~= seq![SqlValue::Int(if favorite { 1 } else { 0 })] + id_values(ids@));
        }
        let sql = in_list_sql("UPDATE records SET is_favorite = ? WHERE id IN ", ids.len(), "");
        let r = self.exec(sql.as_str(), &p);
        proof {
            if r is Ok {
                reveal_strlit("");
                assert(sql@ =~= in_list("UPDATE records SET is_favorite = ? WHERE id IN "@, ids@.len()));
                assert(self.sent_since(*old(self)) =~= seq![self.log().last()]);
            }
        }
        r
    }

    /// Set the display alias of record `id` (trimmed, at most 80
    /// characters; empty clears it); the stored alias.
    pub fn set_record_alias(&mut self, id: i64, alias: &str) -> (r: Result<String, DbError>)
        ensures
            final(self).frame(*old(self)),
            r matches Ok(a) ==> a@ == sanitized_summary(alias@),
    {
        let a = capped_alias(alias);
        self.exec_batch("BEGIN")?;
        let mut p: Vec<SqlParam> = Vec::new();
        p.push(SqlParam::Text(a.clone()));
        p.push(SqlParam::Int(id));
        let res = match self.exec("UPDATE records SET alias = ? WHERE id = ?", &p) {
            Ok(0) => Err(DbError::NoRows),
            Ok(_) => self.refresh_record_fts(id),
            Err(e) => Err(e),
        };
        match res {
            Ok(()) => {
                self.exec_batch("COMMIT")?;
                Ok(a)
            },
            Err(e) => {
                let _ = self.exec_batch("ROLLBACK");
                Err(e)
            },
        }
    }

    /// Move record `id` to the trash: unpinned, no expiry, trash time now,
    /// and a deletion tombstone. A missing record is a no-op.
    pub fn trash_record(&mut self, id: i64) -> (r: Result<(), DbError>)
        ensures
            final(self).frame(*old(self)),
            r is Ok ==> exists|rows: Seq<Vec<SqlCell>>| {
                let sent = final(self).sent_since(*old(self));
                &&& sent.len() > 0
                &&& sent[0] == #[trigger] read_of(TRASH_META_SQL@, seq![SqlValue::Int(id as int)], rows)
                &&& rows.len() == 0 ==> sent.len() == 1
                &&& rows.len() > 0 ==> rows[0]@.len() >= 2 && cell_text(rows[0]@[0]) is Some && cell_bool(rows[0]@[1]) is Some
                    && exists|now: Seq<char>| sent_run(sent, TRASH_ONE_SQL@, #[trigger] text_int(now, id as int))
                        && tombstoned(sent, cell_text(rows[0]@[0])->0, now, cell_bool(rows[0]@[1])->0)
            },
    {
        let p = id_param(id);
        let rows = self.query(TRASH_META_SQL, &p)?;
        let ghost s0 = *self;
        assert(self.sent_since(*old(self)) =~= seq![read_of(TRASH_META_SQL@, seq![SqlValue::Int(id as int)], rows@)]);
        let meta = match hash_flag_rows(&rows) {
            Some(m) => m,
            None => {
                return Err(crate::records::bad_row());
            },
        };
        if meta.len() == 0 {
            return Ok(());
        }
        let now = rfc3339_in(0);
        self.exec(TRASH_ONE_SQL, &text_id_params(now.as_str(), id))?;
        let ghost s1 = *self;
        proof {
            lemma_last_run(*old(self), s1, TRASH_ONE_SQL@, text_int(now@, id as int));
        }
        let res = self.upsert_tombstone(meta[0].0.as_str(), now.as_str(), meta[0].1);
        proof {
            lemma_sent_grows(*old(self), s1, *self);
            if res is Ok {
                lemma_tombstoned_grows(*old(self), s1, *self, meta@[0].0@, now@, meta@[0].1);
                assert(sent_run(self.sent_since(*old(self)), TRASH_ONE_SQL@, text_int(now@, id as int)));
                assert(self.sent_since(*old(self))[0] == s0.sent_since(*old(self))[0]);
            }
        }
        res
    }

    /// Trash several records (tombstone each); rows changed.
    pub fn trash_records_batch(&mut self, ids: &[i64]) -> (r: Result<usize, DbError>)
        ensures
            final(self).frame(*old(self)),
            ids@.len() == 0 ==> r matches Ok(0),
            ids@.len() > 0 && r is Ok ==> exists|now: Seq<char>|
                #[trigger] logged(
                    final(self).sent_since(*old(self)),
                    Sent::Ran(
                        in_list("UPDATE records SET is_trashed = 1, is_pinned = 0, auto_expire_at = NULL, updated_at = ? WHERE id IN "@, ids@.len()),
                        seq![SqlValue::Text(now)] + id_values(ids@),
                        r->Ok_0 as int,
                    ),
                ),
    {
        if ids.len() == 0 {
            return Ok(0);
        }
        let id_params = ints_as_params(ids);
        let sel = in_list_sql("SELECT hash, is_sensitive FROM records WHERE id IN ", ids.len(), "");
        let rows = self.query(sel.as_str(), &id_params)?;
        let meta = match hash_flag_rows(&rows) {
            Some(m) => m,
            None => {
                return Err(crate::records::bad_row());
            },
        };
        let now = rfc3339_in(0);
        let mut p: Vec<SqlParam> = Vec::new();
        p.push(SqlParam::Text(now.clone()));
        let ghost p0 = p@;
        let mut i: usize = 0;
        while i < ids.len()
            invariant
                self.frame(*old(self)),
                ids@.len() > 0,
                0 <= i <= ids@.len(),
                p@.len() == i + 1,
                p@[0] == p0[0],
                forall|k: int| 0 <= k < i ==> #[trigger] p@[k + 1] == SqlParam::Int(ids@[k]),
            decreases ids.len() - i,
        {
            p.push(SqlParam::Int(ids[i]));
            i = i + 1;
        }
        proof {
            assert forall|j: int| 1 <= j < p@.len() implies p@[j] == SqlParam::Int(ids@[j - 1]) by {
                assert(p@[(j - 1) + 1] == SqlParam::Int(ids@[j - 1]));
            }
        }
        let up = in_list_sql(
            "UPDATE records SET is_trashed = 1, is_pinned = 0, auto_expire_at = NULL, updated_at = ? WHERE id IN ",
            ids.len(),
            "",
        );
        let ghost s0 = *self;
        let count = self.exec(up.as_str(), &p)?;
        let ghost s1 = *self;
        let ghost ran = Sent::Ran(
            in_list("UPDATE records SET is_trashed = 1, is_pinned = 0, auto_expire_at = NULL, updated_at = ? WHERE id IN "@, ids@.len()),
            seq![SqlValue::Text(now@)] + id_values(ids@),
            count as int,
        );
        proof {
            reveal_strlit("");
            assert(up@ =~= in_list("UPDATE records SET is_trashed = 1, is_pinned = 0, auto_expire_at = NULL, updated_at = ? WHERE id IN "@, ids@.len()));
            assert(params_view(p@) =~= seq![SqlValue::Text(now@)] + id_values(ids@));
            assert(s1.log().last() == ran);
            lemma_last_logged(s0, s1);
            lemma_sent_grows(*old(self), s0, s1);
        }
        let mut k: usize = 0;
        while k < meta.len()
            invariant
                self.frame(*old(self)),
                self.frame(s1),
                ids@.len() > 0,
                logged(s1.sent_since(*old(self)), ran),
            decreases meta.len() - k,
        {
            self.upsert_tombstone(meta[k].0.as_str(), now.as_str(), meta[k].1)?;
            k = k + 1;
        }
        proof {
            lemma_sent_grows(*old(self), s1, *self);
            assert(logged(self.sent_since(*old(self)), ran));
        }
        Ok(count)
    }

    /// Whether an active row holds `hash`.
    fn hash_has_active_row(&mut self, hash: &str) -> (r: Result<bool, DbError>)
        ensures
            final(self).frame(*old(self)),
            r matches Ok(b) ==> exists|rows: Seq<Vec<SqlCell>>|
                final(self).log() == old(self).log().push(
                    #[trigger] read_of(ACTIVE_HASH_SQL@, seq![SqlValue::Text(hash@)], rows),
                ) && b == (rows.len() > 0),
    {
        let p = crate::tagdb::text_params(hash);
        let rows = self.query(ACTIVE_HASH_SQL, &p)?;
        assert(self.log() == old(self).log().push(read_of(ACTIVE_HASH_SQL@, seq![SqlValue::Text(hash@)], rows@)));
        Ok(rows.len() > 0)
    }

    /// Restore record `id` from the trash (restore time now, tombstone
    /// dropped). When a re-copy already holds its hash, the stale trashed
    /// row is deleted instead.
    pub fn restore_record(&mut self, id: i64) -> (r: Result<(), DbError>)
        ensures
            final(self).frame(*old(self)),
            r is Ok ==> exists|rows: Seq<Vec<SqlCell>>| {
                let sent = final(self).sent_since(*old(self));
                &&& sent.len() > 0
                &&& sent[0] == #[trigger] read_of(RESTORE_META_SQL@, seq![SqlValue::Int(id as int)], rows)
                &&& rows.len() == 0 ==> sent.len() == 1
                &&& rows.len() > 0 ==> rows[0]@.len() >= 2 && cell_text(rows[0]@[0]) is Some
                    && cell_bool(rows[0]@[1]) is Some && sent_run(
                    sent,
                    DELETE_TOMBSTONE_SQL@,
                    seq![SqlValue::Text(cell_text(rows[0]@[0])->0)],
                ) && ({
                    ||| cell_bool(rows[0]@[1]) == Some(true) && sent_run(
                        sent,
                        DELETE_ROW_SQL@,
                        seq![SqlValue::Int(id as int)],
                    ) && never_runs(sent, RESTORE_ONE_SQL@)
                    ||| never_runs(sent, DELETE_ROW_SQL@) && exists|now: Seq<char>|
                        sent_run(sent, RESTORE_ONE_SQL@, #[trigger] text_int(now, id as int))
                })
            },
    {
        let p = id_param(id);
        let rows = self.query(RESTORE_META_SQL, &p)?;
        let ghost s0 = *self;
        assert(self.sent_since(*old(self)) =~= seq![read_of(RESTORE_META_SQL@, seq![SqlValue::Int(id as int)], rows@)]);
        let meta = match hash_flag_rows(&rows) {
            Some(m) => m,
            None => {
                return Err(crate::records::bad_row());
            },
        };
        if meta.len() == 0 {
            return Ok(());
        }
        let hash = meta[0].0.clone();
        let trashed = meta[0].1;
        let hp = crate::tagdb::text_params(hash.as_str());
        let mut stale = false;
        if trashed {
            stale = self.hash_has_active_row(hash.as_str())?;
        }
        let ghost s1 = *self;
        proof {
            lemma_restore_sqls_differ();
            let pre = s1.sent_since(*old(self));
            assert(pre.len() <= 2);
            assert forall|i: int| 0 <= i < pre.len() implies #[trigger] pre[i] is Read by {
                if i == 1 {
                    assert(pre[1] == s1.log().last());
                }
            }
        }
        let ghost s2;
        if stale {
            self.exec(DELETE_ROW_SQL, &id_param(id))?;
            proof { s2 = *self; }
        } else {
            let now = rfc3339_in(0);
            self.exec(RESTORE_ONE_SQL, &text_id_params(now.as_str(), id))?;
            proof {
                s2 = *self;
                lemma_last_run(*old(self), s2, RESTORE_ONE_SQL@, text_int(now@, id as int));
            }
        }
        self.exec(DELETE_TOMBSTONE_SQL, &hp)?;
        proof {
            let sent = self.sent_since(*old(self));
            let pre = s1.sent_since(*old(self));
            let k = pre.len() as int;
            assert(sent.len() == k + 2);
            assert forall|i: int| 0 <= i < k implies sent[i] == pre[i] by {
                assert(self.log()[old(self).log().len() + i] == s1.log()[old(self).log().len() + i]);
            }
            assert(sent[0] == s0.sent_since(*old(self))[0]);
            assert(sent[k] == s2.log().last());
            assert(sent[k + 1] == self.log().last());
            assert(is_run(sent[k + 1], DELETE_TOMBSTONE_SQL@, seq![SqlValue::Text(hash@)]));
            assert(sent_run(sent, DELETE_TOMBSTONE_SQL@, seq![SqlValue::Text(hash@)]));
            if stale {
                assert(is_run(sent[k], DELETE_ROW_SQL@, seq![SqlValue::Int(id as int)]));
                assert(sent_run(sent, DELETE_ROW_SQL@, seq![SqlValue::Int(id as int)]));
                assert(never_runs(sent, RESTORE_ONE_SQL@));
            } else {
                lemma_sent_grows(*old(self), s2, *self);
                assert(sent[k] matches Sent::Ran(q, _, _) && q == RESTORE_ONE_SQL@);
                assert(never_runs(sent, DELETE_ROW_SQL@));
            }
        }
        Ok(())
    }

    /// Restore several records (stale trashed duplicates of active hashes
    /// are swept first); rows changed.
    pub fn restore_records_batch(&mut self, ids: &[i64]) -> (r: Result<usize, DbError>)
        ensures
            final(self).frame(*old(self)),
            ids@.len() == 0 ==> r matches Ok(0),
            ids@.len() > 0 && r is Ok ==> exists|now: Seq<char>|
                #[trigger] logged(
                    final(self).sent_since(*old(self)),
                    Sent::Ran(
                        in_list("UPDATE records SET is_trashed = 0, updated_at = ? WHERE id IN "@, ids@.len()),
                        seq![SqlValue::Text(now)] + id_values(ids@),
                        r->Ok_0 as int,
                    ),
                ),
    {
        if ids.len() == 0 {
            return Ok(0);
        }
        let id_params = ints_as_params(ids);
        let sel = in_list_sql("SELECT hash FROM records WHERE id IN ", ids.len(), "");
        let rows = self.query(sel.as_str(), &id_params)?;
        self.exec("DELETE FROM records WHERE is_trashed = 1 AND hash IN (
                SELECT h.hash FROM records h WHERE h.is_trashed = 0
             )",
            &Vec::new(),
        )?;
        let now = rfc3339_in(0);
        let mut p: Vec<SqlParam> = Vec::new();
        p.push(SqlParam::Text(now.clone()));
        let ghost p0 = p@;
        let mut i: usize = 0;
        while i < ids.len()
            invariant
                self.frame(*old(self)),
                ids@.len() > 0,
                0 <= i <= ids@.len(),
                p@.len() == i + 1,
                p@[0] == p0[0],
                forall|k: int| 0 <= k < i ==> #[trigger] p@[k + 1] == SqlParam::Int(ids@[k]),
            decreases ids.len() - i,
        {
            p.push(SqlParam::Int(ids[i]));
            i = i + 1;
        }
        proof {
            assert forall|j: int| 1 <= j < p@.len() implies p@[j] == SqlParam::Int(ids@[j - 1]) by {
                assert(p@[(j - 1) + 1] == SqlParam::Int(ids@[j - 1]));
            }
        }
        let up = in_list_sql("UPDATE records SET is_trashed = 0, updated_at = ? WHERE id IN ", ids.len(), "");
        let ghost s0 = *self;
        let count = self.exec(up.as_str(), &p)?;
        let ghost s1 = *self;
        let ghost ran = Sent::Ran(
            in_list("UPDATE records SET is_trashed = 0, updated_at = ? WHERE id IN "@, ids@.len()),
            seq![SqlValue::Text(now@)] + id_values(ids@),
            count as int,
        );
        proof {
            reveal_strlit("");
            assert(up@ =~= in_list("UPDATE records SET is_trashed = 0, updated_at = ? WHERE id IN "@, ids@.len()));
            assert(params_view(p@) =~= seq![SqlValue::Text(now@)] + id_values(ids@));
            assert(s1.log().last() == ran);
            lemma_last_logged(s0, s1);
            lemma_sent_grows(*old(self), s0, s1);
        }
        let mut k: usize = 0;
        while k < rows.len()
            invariant
                self.frame(*old(self)),
                self.frame(s1),
                ids@.len() > 0,
                logged(s1.sent_since(*old(self)), ran),
            decreases rows.len() - k,
        {
            if rows[k].len() > 0 {
                if let SqlCell::Text(h) = &rows[k][0] {
                    let mut hp: Vec<SqlParam> = Vec::new();
                    hp.push(SqlParam::Text(h.clone()));
                    self.exec("DELETE FROM sync_tombstones WHERE hash = ?", &hp)?;
                }
            }
            k = k + 1;
        }
        proof {
            lemma_sent_grows(*old(self), s1, *self);
            assert(logged(self.sent_since(*old(self)), ran));
        }
        Ok(count)
    }

    /// Media paths of the given rows.
    pub fn fetch_media_paths_by_ids(&mut self, ids: &[i64]) -> (r: Result<MediaPairs, DbError>)
        ensures
            final(self).frame(*old(self)),
            ids@.len() == 0 ==> (r matches Ok(v) && v@.len() == 0),
    {
        if ids.len() == 0 {
            return Ok(Vec::new());
        }
        let sql = in_list_sql("SELECT media_path, thumb_path FROM records WHERE id IN ", ids.len(), "");
        let rows = self.query(sql.as_str(), &ints_as_params(ids))?;
        match media_rows(&rows) {
            Some(m) => Ok(m),
            None => Err(crate::records::bad_row()),
        }
    }

    /// Permanently delete record `id` when it is in the trash (its
    /// tombstone is refreshed). The media of the deleted row are returned
    /// for the caller to purge; nothing when no row was deleted.
    pub fn permanently_delete_record(&mut self, id: i64) -> (r: Result<MediaPairs, DbError>)
        ensures
            final(self).frame(*old(self)),
            r matches Ok(m) ==> exists|n: int|
                #[trigger] logged(
                    final(self).sent_since(*old(self)),
                    Sent::Ran(PERMANENT_DELETE_SQL@, seq![SqlValue::Int(id as int)], n),
                ) && (n == 0 ==> m@.len() == 0),
    {
        let ids: Vec<i64> = vec![id];
        let media = self.fetch_media_paths_by_ids(ids.as_slice())?;
        let p = id_param(id);
        let rows = self.query(TRASHED_META_SQL, &p)?;
        let info = match hash_flag_rows(&rows) {
            Some(m) => m,
            None => {
                return Err(crate::records::bad_row());
            },
        };
        let n = self.exec(PERMANENT_DELETE_SQL, &id_param(id))?;
        let ghost s1 = *self;
        let ghost del = Sent::Ran(PERMANENT_DELETE_SQL@, seq![SqlValue::Int(id as int)], n as int);
        proof {
            lemma_last_logged(*old(self), s1);
            assert(s1.log().last() == del);
            assert(logged(s1.sent_since(*old(self)), del));
        }
        if n == 0 {
            return Ok(Vec::new());
        }
        if info.len() > 0 {
            let now = rfc3339_in(0);
            let _ = self.upsert_tombstone(info[0].0.as_str(), now.as_str(), info[0].1);
            proof {
                lemma_sent_grows(*old(self), s1, *self);
            }
        }
        assert(logged(self.sent_since(*old(self)), del));
        Ok(media)
    }

    /// Permanently delete the trashed rows among `ids` (tombstones
    /// refreshed); rows deleted and the media to purge.
    pub fn permanently_delete_records_batch(&mut self, ids: &[i64]) -> (r: Result<(usize, MediaPairs), DbError>)
        ensures
            final(self).frame(*old(self)),
            ids@.len() == 0 ==> (r matches Ok((n, m)) && n == 0 && m@.len() == 0),
            ids@.len() > 0 && r is Ok ==> #[trigger] logged(
                final(self).sent_since(*old(self)),
                Sent::Ran(in_list("DELETE FROM records WHERE is_trashed = 1 AND id IN "@, ids@.len()), id_values(ids@), (r->Ok_0).0 as int),
            ) && ((r->Ok_0).0 == 0 ==> (r->Ok_0).1@.len() == 0),
    {
        if ids.len() == 0 {
            return Ok((0, Vec::new()));
        }
        let media = self.fetch_media_paths_by_ids(ids)?;
        let id_params = ints_as_params(ids);
        let sel = in_list_sql(
            "SELECT hash, is_sensitive FROM records WHERE is_trashed = 1 AND id IN ",
            ids.len(),
            "",
        );
        let rows = self.query(sel.as_str(), &id_params)?;
        let meta = match hash_flag_rows(&rows) {
            Some(m) => m,
            None => {
                return Err(crate::records::bad_row());
            },
        };
        let del = in_list_sql("DELETE FROM records WHERE is_trashed = 1 AND id IN ", ids.len(), "");
        let ghost s0 = *self;
        let count = self.exec(del.as_str(), &id_params)?;
        let ghost s1 = *self;
        let ghost ran = Sent::Ran(in_list("DELETE FROM records WHERE is_trashed = 1 AND id IN "@, ids@.len()), id_values(ids@), count as int);
        proof {
            reveal_strlit("");
            assert(del@ =~= in_list("DELETE FROM records WHERE is_trashed = 1 AND id IN "@, ids@.len()));
            assert(params_view(id_params@) =~= id_values(ids@));
            assert(s1.log().last() == ran);
            lemma_last_logged(s0, s1);
            lemma_sent_grows(*old(self), s0, s1);
        }
        if count == 0 {
            return Ok((0, Vec::new()));
        }
        let now = rfc3339_in(0);
        let mut k: usize = 0;
        while k < meta.len()
            invariant
                self.frame(*old(self)),
                self.frame(s1),
                logged(s1.sent_since(*old(self)), ran),
            decreases meta.len() - k,
        {
            let _ = self.upsert_tombstone(meta[k].0.as_str(), now.as_str(), meta[k].1);
            k = k + 1;
        }
        proof {
            lemma_sent_grows(*old(self), s1, *self);
            assert(logged(self.sent_since(*old(self)), ran));
        }
        Ok((count, media))
    }

    /// Rows `(id, hash, is_sensitive)` selected by `sql`, tombstoned now and
    /// then deleted by `delete_sql`; rows deleted and their media.
    fn delete_with_tombstones(&mut self, select_sql: &str, delete_sql: &str) -> (r: Result<
        (usize, MediaPairs),
        DbError,
    >)
        ensures
            final(self).frame(*old(self)),
            r matches Ok(res) ==> swept_since(*old(self), *final(self), select_sql@, delete_sql@, res.0 as int),
    {
        let none: Vec<SqlParam> = Vec::new();
        let rows = self.query(select_sql, &none)?;
        let ghost first = read_of(select_sql@, Seq::empty(), rows@);
        proof {
            assert(params_view(none@) =~= Seq::<SqlValue>::empty());
            assert(self.sent_since(*old(self)) =~= seq![first]);
        }
        let mut ids: Vec<i64> = Vec::new();
        let mut meta: Vec<(String, bool)> = Vec::new();
        let mut i: usize = 0;
        while i < rows.len()
            invariant
                self.frame(*old(self)),
                self.sent_since(*old(self)) == seq![first],
                0 <= i <= rows@.len(),
                meta@.len() == i,
                forall|j: int|
                    0 <= j < i ==> (#[trigger] rows@[j])@.len() >= 3 && cell_text(rows@[j]@[1]) == Some(meta@[j].0@)
                        && cell_bool(rows@[j]@[2]) == Some(meta@[j].1),
            decreases rows.len() - i,
        {
            if rows[i].len() < 3 {
                return Err(crate::records::bad_row());
            }
            match (read_int(&rows[i][0]), read_text(&rows[i][1]), read_bool(&rows[i][2])) {
                (Some(id), Some(h), Some(s)) => {
                    ids.push(id);
                    meta.push((h, s));
                },
                _ => {
                    return Err(crate::records::bad_row());
                },
            }
            i = i + 1;
        }
        let ghost sb = *self;
        let media = self.fetch_media_paths_by_ids(ids.as_slice())?;
        proof {
            lemma_sent_grows(*old(self), sb, *self);
            assert(sb.sent_since(*old(self))[0] == first);
            assert(self.sent_since(*old(self)).subrange(0, 1)[0] == sb.sent_since(*old(self))[0]);
            assert(self.sent_since(*old(self))[0] == first);
        }
        let now = rfc3339_in(0);
        let mut k: usize = 0;
        while k < meta.len()
            invariant
                self.frame(*old(self)),
                self.sent_since(*old(self)).len() > 0,
                self.sent_since(*old(self))[0] == first,
                0 <= k <= meta@.len(),
                meta@.len() == rows@.len(),
                forall|j: int|
                    0 <= j < meta@.len() ==> (#[trigger] rows@[j])@.len() >= 3 && cell_text(rows@[j]@[1]) == Some(meta@[j].0@)
                        && cell_bool(rows@[j]@[2]) == Some(meta@[j].1),
                forall|j: int|
                    0 <= j < k ==> tombstoned(self.sent_since(*old(self)), (#[trigger] meta@[j]).0@, now@, meta@[j].1),
            decreases meta.len() - k,
        {
            let ghost sk = *self;
            self.upsert_tombstone(meta[k].0.as_str(), now.as_str(), meta[k].1)?;
            proof {
                lemma_sent_grows(*old(self), sk, *self);
                assert forall|j: int| 0 <= j < k + 1 implies tombstoned(
                    self.sent_since(*old(self)),
                    (#[trigger] meta@[j]).0@,
                    now@,
                    meta@[j].1,
                ) by {
                    lemma_tombstoned_grows(*old(self), sk, *self, meta@[j].0@, now@, meta@[j].1);
                }
                assert(self.sent_since(*old(self))[0] == sk.sent_since(*old(self))[0]);
            }
            k = k + 1;
        }
        let ghost sk = *self;
        let count = self.exec(delete_sql, &none)?;
        proof {
            lemma_sent_grows(*old(self), sk, *self);
            let sent = self.sent_since(*old(self));
            assert forall|j: int| 0 <= j < meta@.len() implies tombstoned(
                sent,
                (#[trigger] meta@[j]).0@,
                now@,
                meta@[j].1,
            ) by {
                lemma_tombstoned_grows(*old(self), sk, *self, meta@[j].0@, now@, meta@[j].1);
            }
            assert(sent[0] == sk.sent_since(*old(self))[0]);
            assert(sent.last() == self.log().last());
            assert forall|q: int| 0 <= q < rows@.len() implies #[trigger] rows@[q]@.len() >= 3 && cell_text(rows@[q]@[1]) is Some
                && cell_bool(rows@[q]@[2]) is Some && tombstoned(
                sent,
                cell_text(rows@[q]@[1])->0,
                now@,
                cell_bool(rows@[q]@[2])->0,
            ) by {
                assert(tombstoned(sent, meta@[q].0@, now@, meta@[q].1));
            }
            assert(swept(sent, select_sql@, delete_sql@, rows@, now@, count as int));
        }
        assert(swept(self.sent_since(*old(self)), select_sql@, delete_sql@, rows@, now@, count as int));
        assert(swept_since(*old(self), *self, select_sql@, delete_sql@, count as int));
        Ok((count, media))
    }

    /// Permanently delete everything in the trash (tombstones refreshed);
    /// rows deleted and the media to purge.
    pub fn empty_trash(&mut self) -> (r: Result<(usize, MediaPairs), DbError>)
        ensures
            final(self).frame(*old(self)),
            r matches Ok((n, _)) ==> exists|rows: Seq<Vec<SqlCell>>, now: Seq<char>|
                #[trigger] swept(
                    final(self).sent_since(*old(self)),
                    EMPTY_TRASH_SELECT_SQL@,
                    EMPTY_TRASH_DELETE_SQL@,
                    rows,
                    now,
                    n as int,
                ),
    {
        self.delete_with_tombstones(EMPTY_TRASH_SELECT_SQL, EMPTY_TRASH_DELETE_SQL)
    }

    /// Delete every active record that is not a favorite (tombstoned); the
    /// media to purge.
    pub fn clear_non_favorite(&mut self) -> (r: Result<MediaPairs, DbError>)
        ensures
            final(self).frame(*old(self)),
            r is Ok ==> exists|rows: Seq<Vec<SqlCell>>, now: Seq<char>, n: int|
                #[trigger] swept(
                    final(self).sent_since(*old(self)),
                    NON_FAVORITE_SELECT_SQL@,
                    NON_FAVORITE_DELETE_SQL@,
                    rows,
                    now,
                    n,
                ),
    {
        let (_, media) = self.delete_with_tombstones(NON_FAVORITE_SELECT_SQL, NON_FAVORITE_DELETE_SQL)?;
        Ok(media)
    }

    /// Number of records in the trash.
    pub fn get_trash_count(&mut self) -> (r: Result<i64, DbError>)
        ensures
            final(self).frame(*old(self)),
            !(r matches Err(DbError::Sql(_))) ==> exists|rows: Seq<Vec<SqlCell>>|
                final(self).log() == old(self).log().push(
                    #[trigger] read_of(TRASH_COUNT_SQL@, Seq::empty(), rows),
                ) && match first_int_spec(rows) {
                    Some(n) => r == Ok::<i64, DbError>(n),
                    None => r == Err::<i64, DbError>(DbError::NoRows),
                },
    {
        let none: Vec<SqlParam> = Vec::new();
        let rows = self.query(TRASH_COUNT_SQL, &none)?;
        assert(params_view(none@) =~= Seq::<SqlValue>::empty());
        assert(self.log() == old(self).log().push(read_of(TRASH_COUNT_SQL@, Seq::empty(), rows@)));
        match crate::sqlite::first_int(&rows) {
            Some(n) => Ok(n),
            None => Err(DbError::NoRows),
        }
    }

    /// Wipe every record, tag, search and sync history entry and the
    /// tombstone state (settings survive; built-in tags are re-seeded; no
    /// tombstones are written). The media to purge.
    pub fn clear_all_data(&mut self) -> (r: Result<MediaPairs, DbError>)
        ensures
            final(self).frame(*old(self)),
            r matches Ok(m) ==> wiped(final(self).sent_since(*old(self)), m@),
    {
        let none: Vec<SqlParam> = Vec::new();
        let rows = self.query(MEDIA_ALL_SQL, &none)?;
        let ghost s0 = *self;
        let media = match media_rows(&rows) {
            Some(m) => m,
            None => {
                return Err(crate::records::bad_row());
            },
        };
        self.exec(WIPE_RECORDS_SQL, &none)?;
        let ghost s1 = *self;
        self.exec(WIPE_TAGS_SQL, &none)?;
        let ghost s2 = *self;
        self.exec_batch(DEFAULT_TAGS_INSERT)?;
        let ghost s3 = *self;
        self.exec(WIPE_SEARCH_SQL, &none)?;
        let ghost s4 = *self;
        self.exec(WIPE_SYNC_SQL, &none)?;
        let ghost s5 = *self;
        self.exec(WIPE_TOMBSTONES_SQL, &none)?;
        let ghost s6 = *self;
        self.exec(WIPE_TAG_TOMBSTONES_SQL, &none)?;
        let ghost s7 = *self;
        let p = crate::tagdb::text_params(ACK_KEY);
        self.exec(WIPE_ACK_SQL, &p)?;
        proof {
            let sent = self.sent_since(*old(self));
            let b = old(self).log().len() as int;
            assert(params_view(none@) =~= Seq::<SqlValue>::empty());
            assert(sent.len() == 9);
            assert(sent[0] == s0.log()[b]);
            assert(sent[1] == s1.log()[b + 1]);
            assert(sent[2] == s2.log()[b + 2]);
            assert(sent[3] == s3.log()[b + 3]);
            assert(sent[4] == s4.log()[b + 4]);
            assert(sent[5] == s5.log()[b + 5]);
            assert(sent[6] == s6.log()[b + 6]);
            assert(sent[7] == s7.log()[b + 7]);
            assert(sent[0] == read_of(MEDIA_ALL_SQL@, Seq::empty(), rows@));
            assert(wiped(sent, media@));
        }
        Ok(media)
    }

    /// The paths among `files` that some row (any state) still references.
    pub fn referenced_media_set(&mut self, files: &Vec<String>) -> (r: Result<Vec<String>, DbError>)
        ensures
            final(self).frame(*old(self)),
            files@.len() == 0 ==> (r matches Ok(v) && v@.len() == 0),
    {
        if files.len() == 0 {
            return Ok(Vec::new());
        }
        let ph = id_placeholders(files.len());
        let mut sql = String::new();
        sql.append("SELECT media_path FROM records WHERE media_path IN (");
        sql.append(ph.as_str());
        sql.append(")
             UNION
             SELECT thumb_path FROM records WHERE thumb_path IN (");
        sql.append(ph.as_str());
        sql.append(")");
        let mut p: Vec<SqlParam> = Vec::new();
        let mut round: usize = 0;
        while round < 2
            invariant
                self.frame(*old(self)),
            decreases 2 - round,
        {
            let mut i: usize = 0;
            while i < files.len()
                invariant
                    self.frame(*old(self)),
                decreases files.len() - i,
            {
                p.push(SqlParam::Text(files[i].clone()));
                i = i + 1;
            }
            round = round + 1;
        }
        let rows = self.query(sql.as_str(), &p)?;
        Ok(crate::bundle::text_column(&rows))
    }

    /// Files of deleted rows that no remaining row references. When the
    /// reference probe fails nothing is listed (a stray file is safer than a
    /// broken preview).
    pub fn unreferenced_media(&mut self, pairs: &MediaPairs) -> (r: Vec<String>)
        ensures
            final(self).frame(*old(self)),
            forall|i: int| 0 <= i < r@.len() ==> #[trigger] r@[i]@.len() > 0 && pairs_mention(pairs@, r@[i]@),
    {
        let files = media_files_of(pairs);
        match self.referenced_media_set(&files) {
            Ok(referenced) => {
                let r = unreferenced_files(&files, &referenced);
                proof {
                    assert forall|i: int| 0 <= i < r@.len() implies #[trigger] r@[i]@.len() > 0
                        && pairs_mention(pairs@, r@[i]@) by {
                        let j = choose|j: int|
                            0 <= j < strings_view(files@).len() && strings_view(files@)[j] == r@[i]@;
                        assert(files@[j]@ == r@[i]@);
                    }
                }
                r
            },
            Err(_) => Vec::new(),
        }
    }

    /// After the unreferenced files were moved aside, the ones that may now
    /// be deleted for good: those no row references any more (a capture of
    /// the same content may have claimed one meanwhile; that one is put
    /// back). None when the re-check fails: then every file is put back.
    pub fn recheck_quarantined(&mut self, files: &Vec<String>) -> (r: Option<Vec<String>>)
        ensures
            final(self).frame(*old(self)),
            r matches Some(v) ==> forall|i: int|
                0 <= i < v@.len() ==> strings_view(files@).contains(#[trigger] v@[i]@),
            files@.len() == 0 ==> (r matches Some(v) && v@.len() == 0),
    {
        match self.referenced_media_set(files) {
            Ok(still) => {
                let v = unreferenced_files(files, &still);
                proof {
                    if files@.len() == 0 && v@.len() > 0 {
                        assert(strings_view(files@).contains(v@[0]@));
                        assert(strings_view(files@).len() == 0);
                    }
                }
                Some(v)
            },
            Err(_) => None,
        }
    }
}

} // verus!
