//! Upkeep of the store: deleting records outright, the scheduled clean-up
//! of expired sensitive records and of the trash past its retention
//! window, the paste counter, batch reads by id, and the overview
//! statistics. Media files of deleted rows are handed back to the caller,
//! which purges them from disk.
use vstd::prelude::*;

use crate::bundle::rfc3339_in;
use crate::db::{ClipboardDb, lemma_sent_grows, is_run, lemma_last_run, never_runs, read_of, sent_run, runs_one, text_int};
use crate::lifecycle::{in_list_sql, ints_as_params, MediaPairs};
use crate::query::{SqlParam, RECORD_COLS, params_view, SqlValue};
use crate::record::ClipboardRecord;
use crate::records::{cell_int, read_int, opt_view};
use crate::sqlite::{exec, query, DbError, SqlCell, runs, Sent, first_int_spec, first_text_spec};

use crate::records::listed_records;

use crate::tagdb::text_params;

verus! {

/// Longest trash retention window the clock arithmetic accepts (about
/// 250 000 years; chrono's calendar ends near year 262 000).
pub const RETENTION_DAYS_MAX: i32 = 91_312_500;

/// Expired sensitive rows (`?` is now): neither favorite, pinned nor trashed.
pub const EXPIRED_SELECT_SQL: &'static str = "SELECT id FROM records WHERE auto_expire_at IS NOT NULL AND auto_expire_at <= ?
                 AND is_favorite = 0 AND is_pinned = 0 AND is_trashed = 0";

/// Delete the rows [`EXPIRED_SELECT_SQL`] selects.
pub const EXPIRED_DELETE_SQL: &'static str = "DELETE FROM records WHERE auto_expire_at IS NOT NULL AND auto_expire_at <= ?
                 AND is_favorite = 0 AND is_pinned = 0 AND is_trashed = 0";

/// Trashed rows (neither favorite nor pinned) last updated before `?`.
pub const RETENTION_SELECT_SQL: &'static str = "SELECT id FROM records WHERE is_favorite = 0 AND is_pinned = 0 AND is_trashed = 1 AND updated_at < ?";

/// Delete the rows [`RETENTION_SELECT_SQL`] selects.
pub const RETENTION_DELETE_SQL: &'static str = "DELETE FROM records WHERE is_favorite = 0 AND is_pinned = 0 AND is_trashed = 1 AND updated_at < ?";

/// One more use of a row, stamped at `?1`.
pub const INCREMENT_COPY_SQL: &'static str = "UPDATE records SET copy_count = copy_count + 1, updated_at = ? WHERE id = ?";

/// Seconds in a day.
pub const SECONDS_PER_DAY: i64 = 86_400;

/// Overview numbers over the active (not trashed) records.
#[derive(Debug, Clone, PartialEq, Eq)]
pub struct StatsData {
    pub total_records: i64,
    pub total_copies: i64,
    pub favorites_count: i64,
    pub pinned_count: i64,
    pub sensitive_count: i64,
    pub storage_bytes: i64,
    pub data_path: String,
    /// Count per content type, in the order text, code, link, image, file.
    pub type_distribution: Vec<(String, i64)>,
}

/// `a + b` clamped to the `i64` range.
pub open spec fn saturating_sum(a: i64, b: i64) -> i64 {
    if a + b > i64::MAX {
        i64::MAX
    } else if a + b < i64::MIN {
        i64::MIN
    } else {
        (a + b) as i64
    }
}

/// `a + b`, clamped to the `i64` range.
pub fn saturating_add_i64(a: i64, b: i64) -> (r: i64)
    ensures
        r == saturating_sum(a, b),
{
    if b > 0 && a > i64::MAX - b {
        i64::MAX
    } else if b < 0 && a < i64::MIN - b {
        i64::MIN
    } else {
        a + b
    }
}

/// The content types the overview counts, in order.
pub open spec fn stats_type_names() -> Seq<Seq<char>> {
    seq!["text"@, "code"@, "link"@, "image"@, "file"@]
}

/// The integers of a row whose cells are all integers.
pub open spec fn int_cells(cells: Seq<SqlCell>) -> bool {
    forall|i: int| 0 <= i < cells.len() ==> #[trigger] cells[i] is Int
}

/// Overview statistics from the aggregate row (count, copies, favorites,
/// pinned, sensitive, content bytes, then one count per type of
/// `stats_type_names`) and the size of the media folder. None when the row
/// is not eleven integers (SQLite gives NULL sums over an empty table).
pub fn stats_from_row(cells: &Vec<SqlCell>, media_bytes: i64, data_path: &str) -> (r: Option<
    StatsData,
>)
    ensures
        r is Some <==> (cells@.len() == 11 && int_cells(cells@)),
        r matches Some(s) ==> {
            &&& cell_int(cells@[0]) == Some(s.total_records)
            &&& cell_int(cells@[1]) == Some(s.total_copies)
            &&& cell_int(cells@[2]) == Some(s.favorites_count)
            &&& cell_int(cells@[3]) == Some(s.pinned_count)
            &&& cell_int(cells@[4]) == Some(s.sensitive_count)
            &&& cell_int(cells@[5]) matches Some(content_bytes) && s.storage_bytes == saturating_sum(
                content_bytes,
                media_bytes,
            )
            &&& s.data_path@ == data_path@
            &&& s.type_distribution@.len() == 5
            &&& forall|k: int|
                0 <= k < 5 ==> (#[trigger] s.type_distribution@[k]).0@ == stats_type_names()[k]
                    && cell_int(cells@[k + 6]) == Some(s.type_distribution@[k].1)
        },
{
    if cells.len() != 11 {
        return None;
    }
    let mut vals: Vec<i64> = Vec::new();
    let mut i: usize = 0;
    while i < cells.len()
        invariant
            0 <= i <= cells.len(),
            cells@.len() == 11,
            vals@.len() == i,
            forall|j: int| 0 <= j < i ==> #[trigger] cells@[j] is Int && cell_int(cells@[j]) == Some(vals@[j]),
        decreases cells.len() - i,
    {
        match read_int(&cells[i]) {
            Some(v) => {
                match &cells[i] {
                    SqlCell::Int(x) => {
                        proof {
                            assert(*x == v);
                        }
                    },
                    _ => {
                        return None;
                    },
                }
                vals.push(v);
            },
            None => {
                return None;
            },
        }
        i = i + 1;
    }
    let mut types: Vec<(String, i64)> = Vec::new();
    types.push(("text".to_owned(), vals[6]));
    types.push(("code".to_owned(), vals[7]));
    types.push(("link".to_owned(), vals[8]));
    types.push(("image".to_owned(), vals[9]));
    types.push(("file".to_owned(), vals[10]));
    let s = StatsData {
        total_records: vals[0],
        total_copies: vals[1],
        favorites_count: vals[2],
        pinned_count: vals[3],
        sensitive_count: vals[4],
        storage_bytes: saturating_add_i64(vals[5], media_bytes),
        data_path: data_path.to_owned(),
        type_distribution: types,
    };
    proof {
        assert forall|k: int| 0 <= k < 5 implies (#[trigger] s.type_distribution@[k]).0@
            == stats_type_names()[k] && cell_int(cells@[k + 6]) == Some(s.type_distribution@[k].1) by {
            assert(cells@[k + 6] is Int);
        }
    }
    Some(s)
}

/// One aggregate row over the active records.
pub const STATS_SQL: &'static str = "SELECT COUNT(*),
                    COALESCE(SUM(copy_count), 0),
                    SUM(CASE WHEN is_favorite = 1 THEN 1 ELSE 0 END),
                    SUM(CASE WHEN is_pinned = 1 THEN 1 ELSE 0 END),
                    SUM(CASE WHEN is_sensitive = 1 THEN 1 ELSE 0 END),
                    COALESCE(SUM(content_len), 0)
                      + COALESCE(SUM(length(COALESCE(content_html, ''))), 0),
                    SUM(CASE WHEN content_type = 'text' THEN 1 ELSE 0 END),
                    SUM(CASE WHEN content_type = 'code' THEN 1 ELSE 0 END),
                    SUM(CASE WHEN content_type = 'link' THEN 1 ELSE 0 END),
                    SUM(CASE WHEN content_type = 'image' THEN 1 ELSE 0 END),
                    SUM(CASE WHEN content_type = 'file' THEN 1 ELSE 0 END)
             FROM records WHERE is_trashed = 0";

/// The ids a query selected.
pub(crate) fn id_column(rows: &Vec<Vec<SqlCell>>) -> (r: Option<Vec<i64>>)
    ensures
        r is Some <==> forall|k: int|
            0 <= k < rows@.len() ==> (#[trigger] rows@[k])@.len() >= 1 && cell_int(rows@[k]@[0]) is Some,
        r matches Some(v) ==> v@.len() == rows@.len() && forall|k: int|
            0 <= k < v@.len() ==> cell_int(rows@[k]@[0]) == Some(#[trigger] v@[k]),
{
    let mut out: Vec<i64> = Vec::new();
    let mut i: usize = 0;
    while i < rows.len()
        invariant
            0 <= i <= rows.len(),
            out@.len() == i,
            forall|k: int|
                0 <= k < i ==> (#[trigger] rows@[k])@.len() >= 1 && cell_int(rows@[k]@[0]) is Some,
            forall|k: int| 0 <= k < i ==> cell_int(rows@[k]@[0]) == Some(#[trigger] out@[k]),
        decreases rows.len() - i,
    {
        if rows[i].len() < 1 {
            return None;
        }
        let id = match read_int(&rows[i][0]) {
            Some(v) => v,
            None => {
                return None;
            },
        };
        out.push(id);
        i = i + 1;
    }
    Some(out)
}

impl ClipboardDb {
    /// Delete record `id` outright; the media of the row for the caller to
    /// purge.
    pub fn delete_record(&mut self, id: i64) -> (r: Result<MediaPairs, DbError>)
        ensures
            final(self).frame(*old(self)),
            r is Ok ==> is_run(
                final(self).sent_since(*old(self)).last(),
                crate::lifecycle::DELETE_ROW_SQL@,
                seq![SqlValue::Int(id as int)],
            ) && final(self).sent_since(*old(self)).len() > 0,
    {
        let ids: Vec<i64> = vec![id];
        let media = self.fetch_media_paths_by_ids(ids.as_slice())?;
        self.exec(crate::lifecycle::DELETE_ROW_SQL, &crate::capture::id_param(id))?;
        assert(self.sent_since(*old(self)).last() == self.log().last());
        Ok(media)
    }

    /// Delete the rows `ids` outright; rows deleted and the media to purge.
    pub fn delete_records_batch(&mut self, ids: &[i64]) -> (r: Result<(usize, MediaPairs), DbError>)
        ensures
            final(self).frame(*old(self)),
            ids@.len() == 0 ==> (r matches Ok((n, m)) && n == 0 && m@.len() == 0),
            ids@.len() > 0 && r is Ok ==> final(self).sent_since(*old(self)).len() > 0
                && final(self).sent_since(*old(self)).last() == Sent::Ran(
                crate::lifecycle::in_list("DELETE FROM records WHERE id IN "@, ids@.len()),
                crate::lifecycle::id_values(ids@),
                (r->Ok_0).0 as int,
            ),
    {
        if ids.len() == 0 {
            return Ok((0, Vec::new()));
        }
        let media = self.fetch_media_paths_by_ids(ids)?;
        let sql = in_list_sql("DELETE FROM records WHERE id IN ", ids.len(), "");
        let p = ints_as_params(ids);
        proof {
            reveal_strlit("");
            assert(params_view(p@) =~= crate::lifecycle::id_values(ids@));
            assert(sql@ =~= crate::lifecycle::in_list("DELETE FROM records WHERE id IN "@, ids@.len()));
        }
        let count = self.exec(sql.as_str(), &p)?;
        assert(self.sent_since(*old(self)).last() == self.log().last());
        Ok((count, media))
    }

    /// Count one more copy of record `id` and stamp it as updated now.
    pub fn increment_copy_count(&mut self, id: i64) -> (r: Result<(), DbError>)
        ensures
            final(self).frame(*old(self)),
            r is Ok ==> exists|now: Seq<char>|
                runs_one(
                    final(self).sent_since(*old(self)),
                    INCREMENT_COPY_SQL@,
                    #[trigger] text_int(now, id as int),
                ),
    {
        let now = rfc3339_in(0);
        self.exec(INCREMENT_COPY_SQL, &crate::capture::text_id_params(now.as_str(), id))?;
        assert(self.sent_since(*old(self)) =~= seq![self.log().last()]);
        assert(runs_one(self.sent_since(*old(self)), INCREMENT_COPY_SQL@, text_int(now@, id as int)));
        Ok(())
    }

    /// Full rows (with tags) for the given ids, in one query.
    pub fn get_records_by_ids(&mut self, ids: &[i64]) -> (r: Result<Vec<ClipboardRecord>, DbError>)
        ensures
            final(self).frame(*old(self)),
            ids@.len() == 0 ==> (r matches Ok(v) && v@.len() == 0),
            r matches Ok(v) ==> listed_records(v@, old(self).media_prefix_view(), true),
    {
        if ids.len() == 0 {
            return Ok(Vec::new());
        }
        let mut prefix = String::new();
        prefix.append("SELECT ");
        prefix.append(RECORD_COLS);
        prefix.append(" FROM records WHERE id IN ");
        let sql = in_list_sql(prefix.as_str(), ids.len(), "");
        let mut records = self.query_records(sql.as_str(), &ints_as_params(ids))?;
        let ghost mapped = records@;
        self.enrich_tags(&mut records, true)?;
        proof {
            self.lemma_tags_keep_listed(mapped, records@, true);
        }
        Ok(records)
    }

    /// Delete the expired sensitive records, sparing favorites, pinned
    /// rows and the trash (which the retention window owns); the ids
    /// deleted and their media to purge.
    pub fn cleanup_expired(&mut self) -> (r: Result<(Vec<i64>, MediaPairs), DbError>)
        ensures
            final(self).frame(*old(self)),
            r matches Ok((ids, m)) ==> (ids@.len() == 0 ==> m@.len() == 0),
            r matches Ok((ids, _)) ==> exists|now: Seq<char>, rows: Seq<Vec<SqlCell>>| {
                let sent = final(self).sent_since(*old(self));
                &&& sent.len() > 0
                &&& sent[0] == #[trigger] read_of(EXPIRED_SELECT_SQL@, seq![SqlValue::Text(now)], rows)
                &&& ids@.len() == rows.len()
                &&& forall|k: int| 0 <= k < ids@.len() ==> cell_int(rows[k]@[0]) == Some(#[trigger] ids@[k])
                &&& ids@.len() == 0 ==> sent.len() == 1
                &&& ids@.len() > 0 ==> is_run(sent.last(), EXPIRED_DELETE_SQL@, seq![SqlValue::Text(now)])
            },
    {
        let now = rfc3339_in(0);
        let p = text_params(now.as_str());
        let rows = self.query(EXPIRED_SELECT_SQL, &p)?;
        let ghost first = read_of(EXPIRED_SELECT_SQL@, seq![SqlValue::Text(now@)], rows@);
        let ghost s0 = *self;
        assert(self.sent_since(*old(self)) =~= seq![first]);
        let ids = match id_column(&rows) {
            Some(v) => v,
            None => {
                return Err(crate::records::bad_row());
            },
        };
        if ids.len() == 0 {
            return Ok((ids, Vec::new()));
        }
        let media = self.fetch_media_paths_by_ids(ids.as_slice())?;
        self.exec(EXPIRED_DELETE_SQL, &p)?;
        proof {
            lemma_sent_grows(*old(self), s0, *self);
            assert(self.sent_since(*old(self))[0] == first);
            assert(self.sent_since(*old(self)).last() == self.log().last());
        }
        Ok((ids, media))
    }

    /// Delete the trashed records (neither favorite nor pinned) last
    /// updated more than `retention_days` ago; nothing when the window is
    /// not positive. The media of the deleted rows for the caller to purge.
    pub fn cleanup_retention(&mut self, retention_days: i32) -> (r: Result<MediaPairs, DbError>)
        requires
            retention_days <= RETENTION_DAYS_MAX,
        ensures
            final(self).frame(*old(self)),
            retention_days <= 0 ==> (r matches Ok(m) && m@.len() == 0),
            retention_days > 0 && r is Ok ==> exists|cutoff: Seq<char>, rows: Seq<Vec<SqlCell>>| {
                let sent = final(self).sent_since(*old(self));
                &&& sent.len() > 0
                &&& sent[0] == #[trigger] read_of(RETENTION_SELECT_SQL@, seq![SqlValue::Text(cutoff)], rows)
                &&& is_run(sent.last(), RETENTION_DELETE_SQL@, seq![SqlValue::Text(cutoff)])
            },
    {
        if retention_days <= 0 {
            return Ok(Vec::new());
        }
        let back: i64 = 0 - (retention_days as i64) * SECONDS_PER_DAY;
        let cutoff = rfc3339_in(back);
        let p = text_params(cutoff.as_str());
        let rows = self.query(RETENTION_SELECT_SQL, &p)?;
        let ghost first = read_of(RETENTION_SELECT_SQL@, seq![SqlValue::Text(cutoff@)], rows@);
        let ghost s0 = *self;
        assert(self.sent_since(*old(self)) =~= seq![first]);
        let ids = match id_column(&rows) {
            Some(v) => v,
            None => {
                return Err(crate::records::bad_row());
            },
        };
        let media = self.fetch_media_paths_by_ids(ids.as_slice())?;
        self.exec(RETENTION_DELETE_SQL, &p)?;
        proof {
            lemma_sent_grows(*old(self), s0, *self);
            assert(self.sent_since(*old(self))[0] == first);
            assert(self.sent_since(*old(self)).last() == self.log().last());
        }
        Ok(media)
    }

    /// Overview statistics; `media_bytes` is the size of the media folder,
    /// which the caller measures.
    pub fn get_stats(&mut self, media_bytes: i64) -> (r: Result<StatsData, DbError>)
        ensures
            final(self).frame(*old(self)),
            r matches Ok(s) ==> s.data_path@ == old(self).media_root_view() && s.type_distribution@.len()
                == 5,
    {
        let rows = self.query(STATS_SQL, &Vec::new())?;
        if rows.len() == 0 {
            return Err(DbError::NoRows);
        }
        match stats_from_row(&rows[0], media_bytes, self.media_root()) {
            Some(s) => Ok(s),
            None => Err(crate::records::bad_row()),
        }
    }
}

} // verus!
