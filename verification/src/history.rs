//! Local-only logs: the search-history dropdown and the WebDAV sync log.
//! Both keep the 50 newest rows.
use vstd::prelude::*;

use crate::bundle::rfc3339_in;
use crate::db::{ClipboardDb, text_int, is_run, lemma_last_run, never_runs, read_of, sent_run};
use crate::query::{params_view, SqlParam, SqlValue, MAX_PAGE_SIZE};
use crate::records::{cell_bool, cell_i32, cell_int, cell_opt_text, cell_text, opt_view, read_bool, read_int, read_opt_text, read_text};
use crate::sqlite::{exec, last_insert_rowid, query, DbError, SqlCell, runs, Sent, first_int_spec, first_text_spec};
use crate::text::{trim_seq, trim_string};

verus! {

/// Rows kept in each log.
pub const HISTORY_STORE_MAX: i64 = 50;

/// Remember one search (`?1`, trimmed) at time `?2`: a known query counts
/// one more use and takes the new time.
pub const SEARCH_RECORD_SQL: &'static str = "INSERT INTO search_history (query, search_count, last_searched_at)
             VALUES (?1, 1, ?2)
             ON CONFLICT(query) DO UPDATE SET
                search_count = search_count + 1,
                last_searched_at = ?2";

/// Forget one search.
pub const SEARCH_REMOVE_SQL: &'static str = "DELETE FROM search_history WHERE query = ?";

/// Forget every search.
pub const SEARCH_CLEAR_SQL: &'static str = "DELETE FROM search_history";

/// Empty the sync log.
pub const SYNC_CLEAR_SQL: &'static str = "DELETE FROM sync_history";

/// Keep only the `?` most recent searches.
pub const SEARCH_CAP_SQL: &'static str = "DELETE FROM search_history WHERE query NOT IN (
                SELECT query FROM search_history
                ORDER BY last_searched_at DESC LIMIT ?
             )";

/// The most recent searches, newest first.
pub const SEARCH_LIST_SQL: &'static str = "SELECT query, search_count, last_searched_at
             FROM search_history
             ORDER BY last_searched_at DESC
             LIMIT ?";

/// One sync run logged.
pub const SYNC_LOG_SQL: &'static str = "INSERT INTO sync_history (
                synced_at, action, success, pulled, pushed, merged,
                tags_pulled, tags_pushed, media_downloaded, media_uploaded, media_skipped, error
             ) VALUES (?1, ?2, ?3, ?4, ?5, ?6, ?7, ?8, ?9, ?10, ?11, ?12)";

/// Keep only the `?` most recent sync runs.
pub const SYNC_CAP_SQL: &'static str = "DELETE FROM sync_history WHERE id NOT IN (
                SELECT id FROM sync_history ORDER BY synced_at DESC, id DESC LIMIT ?
             )";

/// The most recent sync runs, newest first.
pub const SYNC_LIST_SQL: &'static str = "SELECT id, synced_at, action, success, pulled, pushed, merged,
                    tags_pulled, tags_pushed, media_downloaded, media_uploaded, media_skipped, error
             FROM sync_history
             ORDER BY synced_at DESC, id DESC
             LIMIT ?";

/// `e` sent `sql` with `params`, whether SQLite ran it or refused it.
pub open spec fn attempted(e: Sent, sql: Seq<char>, params: Seq<SqlValue>) -> bool {
    e == Sent::Refused(sql, params) || is_run(e, sql, params)
}

/// `log` starts by sending the sync-log entry of a run at some time.
pub open spec fn sync_logged(
    log: Seq<Sent>,
    action: Seq<char>,
    success: bool,
    c: (i32, i32, i32, i32, i32, i32, i32, i32),
    error: Option<Seq<char>>,
) -> bool {
    log.len() > 0 && exists|now: Seq<char>|
        attempted(log[0], SYNC_LOG_SQL@, #[trigger] sync_log_values(now, action, success, c, error))
}

/// Bound values of a sync-log entry at `now`.
pub open spec fn sync_log_values(
    now: Seq<char>,
    action: Seq<char>,
    success: bool,
    c: (i32, i32, i32, i32, i32, i32, i32, i32),
    error: Option<Seq<char>>,
) -> Seq<SqlValue> {
    seq![
        SqlValue::Text(now),
        SqlValue::Text(action),
        SqlValue::Int(if success { 1 } else { 0 }),
        SqlValue::Int(c.0 as int),
        SqlValue::Int(c.1 as int),
        SqlValue::Int(c.2 as int),
        SqlValue::Int(c.3 as int),
        SqlValue::Int(c.4 as int),
        SqlValue::Int(c.5 as int),
        SqlValue::Int(c.6 as int),
        SqlValue::Int(c.7 as int),
        match error {
            Some(e) => SqlValue::Text(e),
            None => SqlValue::Null,
        },
    ]
}

/// The bound value of [`SEARCH_CAP_SQL`]: the 50-row cap.
pub fn search_cap_params() -> (p: Vec<SqlParam>)
    ensures
        params_view(p@) == seq![SqlValue::Int(HISTORY_STORE_MAX as int)],
{
    let mut p: Vec<SqlParam> = Vec::new();
    p.push(SqlParam::Int(HISTORY_STORE_MAX));
    assert(params_view(p@) =~= seq![SqlValue::Int(HISTORY_STORE_MAX as int)]);
    p
}

/// One remembered search.
#[derive(Debug, Clone, PartialEq, Eq)]
pub struct SearchHistoryEntry {
    pub query: String,
    pub search_count: i64,
    pub last_searched_at: String,
}

/// One logged sync run.
#[derive(Debug, Clone, PartialEq, Eq)]
pub struct SyncHistoryEntry {
    pub id: i64,
    pub synced_at: String,
    pub action: String,
    pub success: bool,
    pub pulled: i32,
    pub pushed: i32,
    pub merged: i32,
    pub tags_pulled: i32,
    pub tags_pushed: i32,
    pub media_downloaded: i32,
    pub media_uploaded: i32,
    pub media_skipped: i32,
    pub error: Option<String>,
}

/// Counters of one sync run, as logged.
#[derive(Debug, Clone, Copy, Default)]
pub struct SyncCounts {
    pub pulled: i32,
    pub pushed: i32,
    pub merged: i32,
    pub tags_pulled: i32,
    pub tags_pushed: i32,
    pub media_downloaded: i32,
    pub media_uploaded: i32,
    pub media_skipped: i32,
}

/// A requested row count clamped into `[0, 500]`.
pub open spec fn history_limit_spec(limit: i64) -> i64 {
    if limit < 0 {
        0
    } else if limit > MAX_PAGE_SIZE as i64 {
        MAX_PAGE_SIZE as i64
    } else {
        limit
    }
}

pub fn history_limit(limit: i64) -> (r: i64)
    ensures
        r == history_limit_spec(limit),
{
    if limit < 0 {
        0
    } else if limit > MAX_PAGE_SIZE as i64 {
        MAX_PAGE_SIZE as i64
    } else {
        limit
    }
}

fn read_i32_cell(c: &SqlCell) -> (r: Option<i32>)
    ensures
        r == cell_i32(*c),
{
    crate::records::read_i32(c)
}

/// Whether `c` is a sync-log row: id, synced_at, action, success, eight
/// counters and a nullable error.
pub open spec fn sync_row_ok(c: Seq<SqlCell>) -> bool {
    &&& c.len() >= 13
    &&& cell_int(c[0]) is Some
    &&& cell_text(c[1]) is Some
    &&& cell_text(c[2]) is Some
    &&& cell_bool(c[3]) is Some
    &&& forall|j: int| 4 <= j < 12 ==> (#[trigger] cell_i32(c[j])) is Some
    &&& cell_opt_text(c[12]) is Some
}

/// `e` holds the columns of the sync-log row `c`.
pub open spec fn sync_row_is(e: SyncHistoryEntry, c: Seq<SqlCell>) -> bool {
    &&& cell_int(c[0]) == Some(e.id)
    &&& cell_text(c[1]) == Some(e.synced_at@)
    &&& cell_text(c[2]) == Some(e.action@)
    &&& cell_bool(c[3]) == Some(e.success)
    &&& cell_i32(c[4]) == Some(e.pulled)
    &&& cell_i32(c[5]) == Some(e.pushed)
    &&& cell_i32(c[6]) == Some(e.merged)
    &&& cell_i32(c[7]) == Some(e.tags_pulled)
    &&& cell_i32(c[8]) == Some(e.tags_pushed)
    &&& cell_i32(c[9]) == Some(e.media_downloaded)
    &&& cell_i32(c[10]) == Some(e.media_uploaded)
    &&& cell_i32(c[11]) == Some(e.media_skipped)
    &&& cell_opt_text(c[12]) == Some(opt_view(e.error))
}

fn sync_row(c: &Vec<SqlCell>) -> (r: Option<SyncHistoryEntry>)
    ensures
        r is Some <==> sync_row_ok(c@),
        r matches Some(e) ==> sync_row_is(e, c@),
{
    if c.len() < 13 {
        return None;
    }
    let id = match read_int(&c[0]) { Some(v) => v, None => { return None; } };
    let synced_at = match read_text(&c[1]) { Some(v) => v, None => { return None; } };
    let action = match read_text(&c[2]) { Some(v) => v, None => { return None; } };
    let success = match read_bool(&c[3]) { Some(v) => v, None => { return None; } };
    let pulled = match read_i32_cell(&c[4]) { Some(v) => v, None => { return None; } };
    let pushed = match read_i32_cell(&c[5]) { Some(v) => v, None => { return None; } };
    let merged = match read_i32_cell(&c[6]) { Some(v) => v, None => { return None; } };
    let tags_pulled = match read_i32_cell(&c[7]) { Some(v) => v, None => { return None; } };
    let tags_pushed = match read_i32_cell(&c[8]) { Some(v) => v, None => { return None; } };
    let media_downloaded = match read_i32_cell(&c[9]) { Some(v) => v, None => { return None; } };
    let media_uploaded = match read_i32_cell(&c[10]) { Some(v) => v, None => { return None; } };
    let media_skipped = match read_i32_cell(&c[11]) { Some(v) => v, None => { return None; } };
    let error = match read_opt_text(&c[12]) { Some(v) => v, None => { return None; } };
    proof {
        assert forall|j: int| 4 <= j < 12 implies (#[trigger] cell_i32(c@[j])) is Some by {
            if j == 4 {} else if j == 5 {} else if j == 6 {} else if j == 7 {} else if j == 8 {}
            else if j == 9 {} else if j == 10 {} else {}
        }
    }
    Some(
        SyncHistoryEntry {
            id,
            synced_at,
            action,
            success,
            pulled,
            pushed,
            merged,
            tags_pulled,
            tags_pushed,
            media_downloaded,
            media_uploaded,
            media_skipped,
            error,
        },
    )
}

/// Whether `c` is a `(query, search_count, last_searched_at)` row.
pub open spec fn search_row_ok(c: Seq<SqlCell>) -> bool {
    c.len() >= 3 && cell_text(c[0]) is Some && cell_int(c[1]) is Some && cell_text(c[2]) is Some
}

/// `e` holds the columns of the search-log row `c`.
pub open spec fn search_row_is(e: SearchHistoryEntry, c: Seq<SqlCell>) -> bool {
    &&& cell_text(c[0]) == Some(e.query@)
    &&& cell_int(c[1]) == Some(e.search_count)
    &&& cell_text(c[2]) == Some(e.last_searched_at@)
}

/// Search-log rows as entries, in order; `None` when a row has other types.
pub fn search_history_rows(rows: &Vec<Vec<SqlCell>>) -> (r: Option<Vec<SearchHistoryEntry>>)
    ensures
        r is Some <==> forall|k: int| 0 <= k < rows@.len() ==> search_row_ok(#[trigger] rows@[k]@),
        r matches Some(v) ==> v@.len() == rows@.len() && forall|k: int|
            0 <= k < v@.len() ==> search_row_is(#[trigger] v@[k], rows@[k]@),
{
    let mut out: Vec<SearchHistoryEntry> = Vec::new();
    let mut i: usize = 0;
    while i < rows.len()
        invariant
            0 <= i <= rows.len(),
            out@.len() == i,
            forall|k: int| 0 <= k < i ==> search_row_ok(#[trigger] rows@[k]@),
            forall|k: int| 0 <= k < i ==> search_row_is(#[trigger] out@[k], rows@[k]@),
        decreases rows.len() - i,
    {
        if rows[i].len() < 3 {
            return None;
        }
        let q = match read_text(&rows[i][0]) { Some(v) => v, None => { return None; } };
        let n = match read_int(&rows[i][1]) { Some(v) => v, None => { return None; } };
        let t = match read_text(&rows[i][2]) { Some(v) => v, None => { return None; } };
        out.push(SearchHistoryEntry { query: q, search_count: n, last_searched_at: t });
        i = i + 1;
    }
    Some(out)
}

/// Sync-log rows as entries, in order; `None` when a row has other types.
pub fn sync_history_rows(rows: &Vec<Vec<SqlCell>>) -> (r: Option<Vec<SyncHistoryEntry>>)
    ensures
        r is Some <==> forall|k: int| 0 <= k < rows@.len() ==> sync_row_ok(#[trigger] rows@[k]@),
        r matches Some(v) ==> v@.len() == rows@.len() && forall|k: int|
            0 <= k < v@.len() ==> sync_row_is(#[trigger] v@[k], rows@[k]@),
{
    let mut out: Vec<SyncHistoryEntry> = Vec::new();
    let mut i: usize = 0;
    while i < rows.len()
        invariant
            0 <= i <= rows.len(),
            out@.len() == i,
            forall|k: int| 0 <= k < i ==> sync_row_ok(#[trigger] rows@[k]@),
            forall|k: int| 0 <= k < i ==> sync_row_is(#[trigger] out@[k], rows@[k]@),
        decreases rows.len() - i,
    {
        match sync_row(&rows[i]) {
            Some(e) => out.push(e),
            None => {
                return None;
            },
        }
        i = i + 1;
    }
    Some(out)
}

impl ClipboardDb {
    /// Most recent searches first, at most `limit` (clamped into `[0, 500]`).
    pub fn get_search_history(&mut self, limit: i64) -> (r: Result<Vec<SearchHistoryEntry>, DbError>)
        ensures
            final(self).frame(*old(self)),
            r matches Ok(v) ==> exists|rows: Seq<Vec<SqlCell>>|
                final(self).log() == old(self).log().push(
                    #[trigger] read_of(SEARCH_LIST_SQL@, seq![SqlValue::Int(history_limit_spec(limit) as int)], rows),
                ) && v@.len() == rows.len() && forall|k: int|
                    0 <= k < v@.len() ==> search_row_is(#[trigger] v@[k], rows[k]@),
    {
        let p = crate::capture::id_param(history_limit(limit));
        let rows = self.query(SEARCH_LIST_SQL, &p)?;
        assert(self.log() == old(self).log().push(read_of(SEARCH_LIST_SQL@, seq![SqlValue::Int(history_limit_spec(limit) as int)], rows@)));
        match search_history_rows(&rows) {
            Some(v) => Ok(v),
            None => Err(crate::records::bad_row()),
        }
    }

    /// Remember a search: a blank query is ignored; a known query counts one
    /// more use and moves to the front; the log keeps the 50 newest.
    pub fn record_search_history(&mut self, query: &str) -> (r: Result<(), DbError>)
        ensures
            final(self).frame(*old(self)),
            trim_seq(query@).len() == 0 ==> r is Ok && final(self).log() == old(self).log(),
            r is Ok && trim_seq(query@).len() > 0 ==> exists|now: Seq<char>|
                runs(
                    final(self).sent_since(*old(self)),
                    seq![
                        (SEARCH_RECORD_SQL@, #[trigger] crate::tagdb::texts2(trim_seq(query@), now)),
                        (SEARCH_CAP_SQL@, seq![SqlValue::Int(HISTORY_STORE_MAX as int)]),
                    ],
                ),
    {
        let q = trim_string(query);
        if q.as_str().is_empty() {
            return Ok(());
        }
        let now = rfc3339_in(0);
        let tp = crate::tagdb::text_text_params(q.as_str(), now.as_str());
        assert(params_view(tp@) == crate::tagdb::texts2(trim_seq(query@), now@));
        self.exec(SEARCH_RECORD_SQL, &tp)?;
        let ghost s1 = *self;
        self.exec(SEARCH_CAP_SQL, &search_cap_params())?;
        proof {
            let sent = self.sent_since(*old(self));
            assert(sent.len() == 2);
            assert(sent[0] == s1.log().last());
            assert(sent[1] == self.log().last());
        }
        Ok(())
    }

    /// Forget one search.
    pub fn remove_search_history(&mut self, query: &str) -> (r: Result<(), DbError>)
        ensures
            final(self).frame(*old(self)),
            r is Ok ==> runs(
                final(self).sent_since(*old(self)),
                seq![(SEARCH_REMOVE_SQL@, seq![SqlValue::Text(query@)])],
            ),
    {
        self.exec(SEARCH_REMOVE_SQL, &crate::tagdb::text_params(query))?;
        assert(self.sent_since(*old(self)) =~= seq![self.log().last()]);
        Ok(())
    }

    /// Forget every search.
    pub fn clear_search_history(&mut self) -> (r: Result<(), DbError>)
        ensures
            final(self).frame(*old(self)),
            r is Ok ==> runs(final(self).sent_since(*old(self)), seq![(SEARCH_CLEAR_SQL@, Seq::empty())]),
    {
        let p: Vec<SqlParam> = Vec::new();
        self.exec(SEARCH_CLEAR_SQL, &p)?;
        assert(params_view(p@) =~= Seq::<SqlValue>::empty());
        assert(self.sent_since(*old(self)) =~= seq![self.log().last()]);
        Ok(())
    }

    /// Log a sync run (stamped now) and keep the 50 newest; the new row id.
    pub fn insert_sync_history(
        &mut self,
        action: &str,
        success: bool,
        pulled: i32,
        pushed: i32,
        merged: i32,
        tags_pulled: i32,
        tags_pushed: i32,
        media_downloaded: i32,
        media_uploaded: i32,
        media_skipped: i32,
        error: Option<&str>,
    ) -> (r: Result<i64, DbError>)
        ensures
            final(self).frame(*old(self)),
            sync_logged(
                final(self).sent_since(*old(self)),
                action@,
                success,
                (pulled, pushed, merged, tags_pulled, tags_pushed, media_downloaded, media_uploaded, media_skipped),
                crate::capture::html_view(error),
            ),
            r matches Ok(id) ==> exists|now: Seq<char>| {
                let sent = final(self).sent_since(*old(self));
                &&& sent.len() == 3
                &&& is_run(
                    sent[0],
                    SYNC_LOG_SQL@,
                    #[trigger] sync_log_values(
                        now,
                        action@,
                        success,
                        (pulled, pushed, merged, tags_pulled, tags_pushed, media_downloaded, media_uploaded, media_skipped),
                        crate::capture::html_view(error),
                    ),
                )
                &&& sent[1] == Sent::Rowid(id)
                &&& is_run(sent[2], SYNC_CAP_SQL@, seq![SqlValue::Int(HISTORY_STORE_MAX as int)])
            },
    {
        let now = rfc3339_in(0);
        let mut p: Vec<SqlParam> = Vec::new();
        p.push(SqlParam::Text(now.clone()));
        p.push(SqlParam::Text(action.to_owned()));
        p.push(SqlParam::Int(if success { 1 } else { 0 }));
        p.push(SqlParam::Int(pulled as i64));
        p.push(SqlParam::Int(pushed as i64));
        p.push(SqlParam::Int(merged as i64));
        p.push(SqlParam::Int(tags_pulled as i64));
        p.push(SqlParam::Int(tags_pushed as i64));
        p.push(SqlParam::Int(media_downloaded as i64));
        p.push(SqlParam::Int(media_uploaded as i64));
        p.push(SqlParam::Int(media_skipped as i64));
        p.push(
            match error {
                Some(e) => SqlParam::Text(e.to_owned()),
                None => SqlParam::Null,
            },
        );
        let ghost vals = sync_log_values(
            now@,
            action@,
            success,
            (pulled, pushed, merged, tags_pulled, tags_pushed, media_downloaded, media_uploaded, media_skipped),
            crate::capture::html_view(error),
        );
        assert(params_view(p@) =~= vals);
        let first = self.exec(SYNC_LOG_SQL, &p);
        let ghost s1 = *self;
        proof {
            assert(s1.sent_since(*old(self)) =~= seq![s1.log().last()]);
            assert(attempted(s1.sent_since(*old(self))[0], SYNC_LOG_SQL@, vals));
        }
        if let Err(e) = first {
            return Err(e);
        }
        let id = self.last_insert_rowid();
        let ghost s2 = *self;
        let cap = search_cap_params();
        let capped = self.exec(SYNC_CAP_SQL, &cap);
        proof {
            assert(self.sent_since(*old(self))[0] == s1.sent_since(*old(self))[0]) by {
                let b = old(self).log().len() as int;
                assert(self.log()[b] == s1.log()[b]);
            }
        }
        if let Err(e) = capped {
            return Err(e);
        }
        proof {
            let sent = self.sent_since(*old(self));
            let b = old(self).log().len() as int;
            assert(sent.len() == 3);
            assert(sent[0] == s1.log()[b]);
            assert(sent[1] == s2.log()[b + 1]);
            assert(is_run(sent[0], SYNC_LOG_SQL@, vals));
        }
        Ok(id)
    }

    /// Log a successful sync run with its counters (logging failures are
    /// ignored).
    pub fn log_sync_ok(&mut self, action: &str, counts: &SyncCounts)
        ensures
            final(self).frame(*old(self)),
            sync_logged(
                final(self).sent_since(*old(self)),
                action@,
                true,
                (counts.pulled, counts.pushed, counts.merged, counts.tags_pulled, counts.tags_pushed, counts.media_downloaded, counts.media_uploaded, counts.media_skipped),
                None,
            ),
    {
        let _ = self.insert_sync_history(
            action,
            true,
            counts.pulled,
            counts.pushed,
            counts.merged,
            counts.tags_pulled,
            counts.tags_pushed,
            counts.media_downloaded,
            counts.media_uploaded,
            counts.media_skipped,
            None,
        );
    }

    /// Log a failed sync run with its error (logging failures are ignored).
    pub fn log_sync_err(&mut self, action: &str, error: &str)
        ensures
            final(self).frame(*old(self)),
            sync_logged(final(self).sent_since(*old(self)), action@, false, (0, 0, 0, 0, 0, 0, 0, 0), Some(error@)),
    {
        let _ = self.insert_sync_history(action, false, 0, 0, 0, 0, 0, 0, 0, 0, Some(error));
    }

    /// Newest sync runs first, at most `limit` (clamped into `[0, 500]`).
    pub fn get_sync_history(&mut self, limit: i64) -> (r: Result<Vec<SyncHistoryEntry>, DbError>)
        ensures
            final(self).frame(*old(self)),
            r matches Ok(v) ==> exists|rows: Seq<Vec<SqlCell>>|
                final(self).log() == old(self).log().push(
                    #[trigger] read_of(SYNC_LIST_SQL@, seq![SqlValue::Int(history_limit_spec(limit) as int)], rows),
                ) && v@.len() == rows.len() && forall|k: int|
                    0 <= k < v@.len() ==> sync_row_is(#[trigger] v@[k], rows[k]@),
    {
        let p = crate::capture::id_param(history_limit(limit));
        let rows = self.query(SYNC_LIST_SQL, &p)?;
        assert(self.log() == old(self).log().push(read_of(SYNC_LIST_SQL@, seq![SqlValue::Int(history_limit_spec(limit) as int)], rows@)));
        match sync_history_rows(&rows) {
            Some(v) => Ok(v),
            None => Err(crate::records::bad_row()),
        }
    }

    /// Empty the sync log.
    pub fn clear_sync_history(&mut self) -> (r: Result<(), DbError>)
        ensures
            final(self).frame(*old(self)),
            r is Ok ==> runs(final(self).sent_since(*old(self)), seq![(SYNC_CLEAR_SQL@, Seq::empty())]),
    {
        let p: Vec<SqlParam> = Vec::new();
        self.exec(SYNC_CLEAR_SQL, &p)?;
        assert(params_view(p@) =~= Seq::<SqlValue>::empty());
        assert(self.sent_since(*old(self)) =~= seq![self.log().last()]);
        Ok(())
    }
}

} // verus!
