//! Deletion tombstones: cross-device delete propagation. A pulled
//! tombstone trashes an older local copy, keeps a newer re-copy, and the
//! device's acknowledgement watermark advances past every tombstone seen.
use vstd::prelude::*;

use crate::bundle::rfc3339_in;
use crate::db::{ClipboardDb, lemma_sent_grows, reads_only, count_runs, lemma_count_push, lemma_count_since, is_run, lemma_last_run, never_runs, read_of, sent_run};
use crate::query::{SqlParam, params_view, SqlValue};
use crate::records::{cell_bool, cell_text, read_bool, read_int, read_text, opt_view};
use crate::sqlite::{exec, query, query_text, DbError, SqlCell, runs, Sent, first_int_spec, first_text_spec};
use crate::sync::{ack_after, fold_ack, fold_tombstone, tombstone_fold, opt_text, tombstone_action, TombstoneAction};

verus! {

/// Settings key of the newest remote tombstone this device applied.
pub const ACK_KEY: &'static str = "webdav_tombstone_ack";

/// Whether `c` is a `(hash, deleted_at, is_sensitive)` row.
pub open spec fn tombstone_row_ok(c: Seq<SqlCell>) -> bool {
    c.len() >= 3 && cell_text(c[0]) is Some && cell_text(c[1]) is Some && cell_bool(c[2]) is Some
}

/// Tombstone rows as `(hash, deleted_at, is_sensitive)`, in order; `None`
/// when a row has other types.
pub fn tombstone_rows(rows: &Vec<Vec<SqlCell>>) -> (r: Option<Vec<(String, String, bool)>>)
    ensures
        r is Some <==> forall|k: int| 0 <= k < rows@.len() ==> tombstone_row_ok(#[trigger] rows@[k]@),
        r matches Some(v) ==> v@.len() == rows@.len() && forall|k: int|
            0 <= k < v@.len() ==> cell_text(rows@[k]@[0]) == Some((#[trigger] v@[k]).0@)
                && cell_text(rows@[k]@[1]) == Some(v@[k].1@) && cell_bool(rows@[k]@[2]) == Some(
                v@[k].2,
            ),
{
    let mut out: Vec<(String, String, bool)> = Vec::new();
    let mut i: usize = 0;
    while i < rows.len()
        invariant
            0 <= i <= rows.len(),
            out@.len() == i,
            forall|k: int| 0 <= k < i ==> tombstone_row_ok(#[trigger] rows@[k]@),
            forall|k: int|
                0 <= k < i ==> cell_text(rows@[k]@[0]) == Some((#[trigger] out@[k]).0@) && cell_text(
                    rows@[k]@[1],
                ) == Some(out@[k].1@) && cell_bool(rows@[k]@[2]) == Some(out@[k].2),
        decreases rows.len() - i,
    {
        if rows[i].len() < 3 {
            return None;
        }
        let h = match read_text(&rows[i][0]) { Some(v) => v, None => { return None; } };
        let d = match read_text(&rows[i][1]) { Some(v) => v, None => { return None; } };
        let f = match read_bool(&rows[i][2]) { Some(v) => v, None => { return None; } };
        out.push((h, d, f));
        i = i + 1;
    }
    Some(out)
}

/// The stored value of settings key `?`.
pub const SETTING_VALUE_SQL: &'static str = "SELECT value FROM settings WHERE key = ?";

/// The stored tombstone of one hash.
pub const TOMBSTONE_READ_SQL: &'static str = "SELECT deleted_at, is_sensitive FROM sync_tombstones WHERE hash = ?";

/// Write the tombstone of one hash.
pub const TOMBSTONE_UPSERT_SQL: &'static str = "INSERT OR REPLACE INTO sync_tombstones (hash, deleted_at, is_sensitive) VALUES (?, ?, ?)";

/// Every local tombstone.
pub const TOMBSTONES_ALL_SQL: &'static str = "SELECT hash, deleted_at, is_sensitive FROM sync_tombstones";

/// Trash the active copy `?2` of a remotely deleted hash at time `?1`.
pub const REMOTE_TRASH_SQL: &'static str = "UPDATE records SET is_trashed = 1, is_pinned = 0,
                             auto_expire_at = NULL, updated_at = ? WHERE id = ?";

/// Drop a local tombstone that a newer copy supersedes.
pub const TOMBSTONE_SUPERSEDED_SQL: &'static str = "DELETE FROM sync_tombstones WHERE hash = ? AND deleted_at <= ?";

/// The newest active copy of a hash.
pub const NEWEST_COPY_SQL: &'static str = "SELECT id, updated_at, is_sensitive FROM records
             WHERE hash = ?1 AND is_trashed = 0
             ORDER BY updated_at DESC LIMIT 1";

/// A tombstone for the deletion of `hash` at `deleted_at` was written to
/// `log`, whatever its sensitivity.
pub open spec fn remembered(log: Seq<Sent>, hash: Seq<char>, deleted_at: Seq<char>) -> bool {
    exists|s: bool| #[trigger] tombstoned(log, hash, deleted_at, s)
}

/// Bound values of a tombstone write.
pub open spec fn tomb_values(hash: Seq<char>, t: (Seq<char>, bool)) -> Seq<SqlValue> {
    seq![SqlValue::Text(hash), SqlValue::Text(t.0), SqlValue::Int(if t.1 { 1 } else { 0 })]
}

/// Some tombstone write for `hash` is in `log`: the deletion at
/// `deleted_at` folded into whatever tombstone was stored.
pub open spec fn tombstoned(log: Seq<Sent>, hash: Seq<char>, deleted_at: Seq<char>, sensitive: bool) -> bool {
    exists|stored: Option<(Seq<char>, bool)>|
        sent_run(log, TOMBSTONE_UPSERT_SQL@, tomb_values(hash, #[trigger] tombstone_fold(stored, deleted_at, sensitive)))
}

/// A tombstone write sent between `prev` and `mid`, or between `mid` and
/// `cur`, was sent between `prev` and `cur`.
pub proof fn lemma_tombstoned_grows(
    prev: ClipboardDb,
    mid: ClipboardDb,
    cur: ClipboardDb,
    hash: Seq<char>,
    deleted_at: Seq<char>,
    sensitive: bool,
)
    requires
        mid.frame(prev),
        cur.frame(mid),
        tombstoned(mid.sent_since(prev), hash, deleted_at, sensitive) || tombstoned(
            cur.sent_since(mid),
            hash,
            deleted_at,
            sensitive,
        ),
    ensures
        tombstoned(cur.sent_since(prev), hash, deleted_at, sensitive),
{
    lemma_sent_grows(prev, mid, cur);
    if tombstoned(mid.sent_since(prev), hash, deleted_at, sensitive) {
        let st = choose|st: Option<(Seq<char>, bool)>|
            sent_run(mid.sent_since(prev), TOMBSTONE_UPSERT_SQL@, tomb_values(hash, #[trigger] tombstone_fold(st, deleted_at, sensitive)));
        assert(sent_run(cur.sent_since(prev), TOMBSTONE_UPSERT_SQL@, tomb_values(hash, tombstone_fold(st, deleted_at, sensitive))));
    } else {
        let st = choose|st: Option<(Seq<char>, bool)>|
            sent_run(cur.sent_since(mid), TOMBSTONE_UPSERT_SQL@, tomb_values(hash, #[trigger] tombstone_fold(st, deleted_at, sensitive)));
        assert(sent_run(cur.sent_since(prev), TOMBSTONE_UPSERT_SQL@, tomb_values(hash, tombstone_fold(st, deleted_at, sensitive))));
    }
}

/// The statements of applying tombstones are told apart by their text.
pub proof fn lemma_remote_sqls_differ()
    ensures
        REMOTE_TRASH_SQL@ != TOMBSTONE_UPSERT_SQL@,
        REMOTE_TRASH_SQL@ != TOMBSTONE_SUPERSEDED_SQL@,
        REMOTE_TRASH_SQL@ != crate::settings::SETTING_WRITE_SQL@,
{
    reveal_strlit("UPDATE records SET is_trashed = 1, is_pinned = 0,
                             auto_expire_at = NULL, updated_at = ? WHERE id = ?");
    reveal_strlit("INSERT OR REPLACE INTO settings (key, value) VALUES (?, ?)");
    reveal_strlit("DELETE FROM sync_tombstones WHERE hash = ? AND deleted_at <= ?");
    reveal_strlit("INSERT OR REPLACE INTO sync_tombstones (hash, deleted_at, is_sensitive) VALUES (?, ?, ?)");
    assert(REMOTE_TRASH_SQL@[0] != TOMBSTONE_UPSERT_SQL@[0]);
    assert(REMOTE_TRASH_SQL@[0] != TOMBSTONE_SUPERSEDED_SQL@[0]);
    assert(REMOTE_TRASH_SQL@[0] != crate::settings::SETTING_WRITE_SQL@[0]);
}

impl ClipboardDb {
    /// The stored tombstone of `hash`, if any.
    fn stored_tombstone(&mut self, hash: &str) -> (r: Result<Option<(String, bool)>, DbError>)
        ensures
            final(self).frame(*old(self)),
            reads_only(*old(self), *final(self)),
    {
        let mut p: Vec<SqlParam> = Vec::new();
        p.push(SqlParam::Text(hash.to_owned()));
        let rows = self.query(TOMBSTONE_READ_SQL, &p)?;
        if rows.len() == 0 {
            return Ok(None);
        }
        if rows[0].len() < 2 {
            return Err(crate::records::bad_row());
        }
        match (read_text(&rows[0][0]), read_bool(&rows[0][1])) {
            (Some(d), Some(s)) => Ok(Some((d, s))),
            _ => Err(crate::records::bad_row()),
        }
    }

    /// Record a deletion of `hash`: the stored tombstone keeps the later
    /// `deleted_at` and stays sensitive once it was.
    pub fn upsert_tombstone(&mut self, hash: &str, deleted_at: &str, is_sensitive: bool) -> (r: Result<
        (),
        DbError,
    >)
        ensures
            final(self).frame(*old(self)),
            r is Ok ==> tombstoned(final(self).sent_since(*old(self)), hash@, deleted_at@, is_sensitive),
            r is Ok ==> forall|q: Seq<char>|
                q != TOMBSTONE_UPSERT_SQL@ ==> #[trigger] count_runs(final(self).log(), q) == count_runs(
                    old(self).log(),
                    q,
                ),
    {
        let prior = self.stored_tombstone(hash)?;
        let ghost stored = match &prior {
            Some(t) => Some((t.0@, t.1)),
            None => None,
        };
        let (d, s) = fold_tombstone(prior, deleted_at, is_sensitive);
        let mut p: Vec<SqlParam> = Vec::new();
        p.push(SqlParam::Text(hash.to_owned()));
        p.push(SqlParam::Text(d));
        p.push(SqlParam::Int(if s { 1 } else { 0 }));
        let ghost l1 = self.log();
        self.exec(TOMBSTONE_UPSERT_SQL, &p)?;
        proof {
            assert forall|q: Seq<char>| q != TOMBSTONE_UPSERT_SQL@ implies #[trigger] count_runs(self.log(), q)
                == count_runs(old(self).log(), q) by {
                lemma_count_push(l1, self.log().last(), q);
                assert(self.log() =~= l1.push(self.log().last()));
            }
            assert(params_view(p@) =~= tomb_values(hash@, tombstone_fold(stored, deleted_at@, is_sensitive)));
            lemma_last_run(*old(self), *self, TOMBSTONE_UPSERT_SQL@, params_view(p@));
        }
        Ok(())
    }

    /// Drop the tombstone of `hash` (restore, or superseded by a re-copy).
    pub fn remove_tombstone(&mut self, hash: &str) -> (r: Result<(), DbError>)
        ensures
            final(self).frame(*old(self)),
            r is Ok ==> runs(
                final(self).sent_since(*old(self)),
                seq![(crate::lifecycle::DELETE_TOMBSTONE_SQL@, seq![SqlValue::Text(hash@)])],
            ),
    {
        self.exec(crate::lifecycle::DELETE_TOMBSTONE_SQL, &crate::tagdb::text_params(hash))?;
        assert(self.sent_since(*old(self)) =~= seq![self.log().last()]);
        Ok(())
    }

    /// Every local tombstone: `(hash, deleted_at, is_sensitive)`.
    pub fn get_sync_tombstones(&mut self) -> (r: Result<Vec<(String, String, bool)>, DbError>)
        ensures
            final(self).frame(*old(self)),
            r matches Ok(v) ==> exists|rows: Seq<Vec<SqlCell>>|
                final(self).log() == old(self).log().push(
                    #[trigger] read_of(TOMBSTONES_ALL_SQL@, Seq::empty(), rows),
                ) && v@.len() == rows.len() && forall|k: int|
                    0 <= k < v@.len() ==> cell_text(rows[k]@[0]) == Some((#[trigger] v@[k]).0@)
                        && cell_text(rows[k]@[1]) == Some(v@[k].1@) && cell_bool(rows[k]@[2]) == Some(
                        v@[k].2,
                    ),
    {
        let none: Vec<SqlParam> = Vec::new();
        let rows = self.query(TOMBSTONES_ALL_SQL, &none)?;
        assert(params_view(none@) =~= Seq::<SqlValue>::empty());
        assert(self.log() == old(self).log().push(read_of(TOMBSTONES_ALL_SQL@, Seq::empty(), rows@)));
        match tombstone_rows(&rows) {
            Some(v) => Ok(v),
            None => Err(crate::records::bad_row()),
        }
    }

    /// The newest remote tombstone this device applied.
    pub fn get_tombstone_ack(&mut self) -> (r: Result<Option<String>, DbError>)
        ensures
            final(self).frame(*old(self)),
            r matches Ok(v) ==> exists|rows: Seq<Vec<SqlCell>>|
                final(self).log() == old(self).log().push(
                    #[trigger] read_of(SETTING_VALUE_SQL@, seq![SqlValue::Text(ACK_KEY@)], rows),
                ) && opt_view(v) == first_text_spec(rows),
    {
        let p = crate::tagdb::text_params(ACK_KEY);
        self.query_text(SETTING_VALUE_SQL, &p)
    }

    /// The newest active copy of `hash`: `(id, updated_at, is_sensitive)`.
    fn newest_active_copy(&mut self, hash: &str) -> (r: Result<Option<(i64, String, bool)>, DbError>)
        ensures
            final(self).frame(*old(self)),
            reads_only(*old(self), *final(self)),
    {
        let mut p: Vec<SqlParam> = Vec::new();
        p.push(SqlParam::Text(hash.to_owned()));
        let rows = self.query(NEWEST_COPY_SQL, &p)?;
        if rows.len() == 0 {
            return Ok(None);
        }
        if rows[0].len() < 3 {
            return Err(crate::records::bad_row());
        }
        match (read_int(&rows[0][0]), read_text(&rows[0][1]), read_bool(&rows[0][2])) {
            (Some(id), Some(u), Some(s)) => Ok(Some((id, u, s))),
            _ => Err(crate::records::bad_row()),
        }
    }

    /// Apply pulled tombstones `(hash, deleted_at)`: an active copy updated
    /// before the deletion is moved to the trash (unpinned, no expiry, fresh
    /// trash time); a newer copy is kept and a local tombstone it supersedes
    /// is dropped; every tombstone is remembered. Returns the number trashed
    /// and the acknowledgement watermark, which advances to the newest
    /// `deleted_at` seen.
    pub fn apply_remote_tombstones(&mut self, tombstones: &[(String, String)]) -> (r: Result<
        (usize, Option<String>),
        DbError,
    >)
        ensures
            final(self).frame(*old(self)),
            r matches Ok((trashed, _)) ==> trashed <= tombstones@.len(),
            r matches Ok((trashed, ack)) ==> exists|rows: Seq<Vec<SqlCell>>| {
                let sent = final(self).sent_since(*old(self));
                &&& sent.len() > 0
                &&& sent[0] == #[trigger] read_of(SETTING_VALUE_SQL@, seq![SqlValue::Text(ACK_KEY@)], rows)
                &&& opt_text(ack) == ack_after(first_text_spec(rows), tombstones@, tombstones@.len() as int)
                &&& trashed == count_runs(sent, REMOTE_TRASH_SQL@)
                &&& forall|j: int|
                    0 <= j < tombstones@.len() ==> remembered(
                        sent,
                        (#[trigger] tombstones@[j]).0@,
                        tombstones@[j].1@,
                    )
                &&& ack matches Some(ts) ==> is_run(
                    sent.last(),
                    crate::settings::SETTING_WRITE_SQL@,
                    crate::tagdb::texts2(ACK_KEY@, ts@),
                )
            },
    {
        proof {
            lemma_remote_sqls_differ();
        }
        let mut applied: usize = 0;
        let start_ack: Option<String> = self.get_tombstone_ack()?;
        let ghost s0 = *self;
        let ghost rows = choose|rows: Seq<Vec<SqlCell>>|
            s0.log() == old(self).log().push(
                #[trigger] read_of(SETTING_VALUE_SQL@, seq![SqlValue::Text(ACK_KEY@)], rows),
            ) && opt_view(start_ack) == first_text_spec(rows);
        let ghost first = read_of(SETTING_VALUE_SQL@, seq![SqlValue::Text(ACK_KEY@)], rows);
        proof {
            assert(s0.sent_since(*old(self)) =~= seq![first]);
            lemma_count_push(old(self).log(), first, REMOTE_TRASH_SQL@);
        }
        let mut i: usize = 0;
        while i < tombstones.len()
            invariant
                self.frame(*old(self)),
                s0.frame(*old(self)),
                self.frame(s0),
                0 <= i <= tombstones.len(),
                applied <= i,
                s0.sent_since(*old(self)) == seq![first],
                applied == count_runs(self.log(), REMOTE_TRASH_SQL@) - count_runs(old(self).log(), REMOTE_TRASH_SQL@),
                REMOTE_TRASH_SQL@ != TOMBSTONE_UPSERT_SQL@,
                REMOTE_TRASH_SQL@ != TOMBSTONE_SUPERSEDED_SQL@,
                forall|j: int|
                    0 <= j < i ==> remembered(
                        self.sent_since(*old(self)),
                        (#[trigger] tombstones@[j]).0@,
                        tombstones@[j].1@,
                    ),
            decreases tombstones.len() - i,
        {
            let ghost sk = *self;
            let (hash, deleted_at) = (&tombstones[i].0, &tombstones[i].1);
            let copy = self.newest_active_copy(hash.as_str())?;
            let local_updated: Option<&str> = match &copy {
                Some((_, u, _)) => Some(u.as_str()),
                None => None,
            };
            let ghost sc = *self;
            let action = tombstone_action(local_updated, deleted_at.as_str());
            let ghost mut sens = false;
            let ghost mut su = sc;
            match action {
                TombstoneAction::Trash => {
                    if let Some((id, _, sensitive)) = &copy {
                        self.upsert_tombstone(hash.as_str(), deleted_at.as_str(), *sensitive)?;
                        proof {
                            sens = *sensitive;
                            su = *self;
                        }
                        let mut p: Vec<SqlParam> = Vec::new();
                        p.push(SqlParam::Text(rfc3339_in(0)));
                        p.push(SqlParam::Int(*id));
                        let ghost l = self.log();
                        self.exec(REMOTE_TRASH_SQL, &p)?;
                        proof {
                            lemma_count_push(l, self.log().last(), REMOTE_TRASH_SQL@);
                            assert(self.log() =~= l.push(self.log().last()));
                        }
                        applied = applied + 1;
                    }
                },
                TombstoneAction::KeepNewer => {
                    if let Some((_, updated_at, sensitive)) = &copy {
                        self.upsert_tombstone(hash.as_str(), deleted_at.as_str(), *sensitive)?;
                        proof {
                            sens = *sensitive;
                            su = *self;
                        }
                        let mut p: Vec<SqlParam> = Vec::new();
                        p.push(SqlParam::Text(hash.clone()));
                        p.push(SqlParam::Text(updated_at.clone()));
                        let ghost l = self.log();
                        self.exec(TOMBSTONE_SUPERSEDED_SQL, &p)?;
                        proof {
                            lemma_count_push(l, self.log().last(), REMOTE_TRASH_SQL@);
                            assert(self.log() =~= l.push(self.log().last()));
                        }
                    }
                },
                TombstoneAction::Remember => {
                    self.upsert_tombstone(hash.as_str(), deleted_at.as_str(), false)?;
                    proof {
                        su = *self;
                    }
                },
            }
            proof {
                lemma_sent_grows(*old(self), sk, sc);
                lemma_sent_grows(sk, sc, su);
                lemma_sent_grows(sc, su, *self);
                lemma_sent_grows(*old(self), sc, *self);
                lemma_tombstoned_grows(sc, su, *self, hash@, deleted_at@, sens);
                lemma_tombstoned_grows(*old(self), sc, *self, hash@, deleted_at@, sens);
                assert(remembered(self.sent_since(*old(self)), hash@, deleted_at@));
                lemma_sent_grows(sk, sc, *self);
                assert forall|j: int| 0 <= j < i + 1 implies remembered(
                    self.sent_since(*old(self)),
                    (#[trigger] tombstones@[j]).0@,
                    tombstones@[j].1@,
                ) by {
                    if j < i {
                        let s = choose|s: bool| #[trigger] tombstoned(sk.sent_since(*old(self)), tombstones@[j].0@, tombstones@[j].1@, s);
                        lemma_tombstoned_grows(*old(self), sk, *self, tombstones@[j].0@, tombstones@[j].1@, s);
                    }
                }
                lemma_sent_grows(s0, sk, *self);
            }
            i = i + 1;
        }
        let ack = fold_ack(start_ack, tombstones);
        let ghost sa = *self;
        if let Some(ts) = &ack {
            let p = crate::tagdb::text_text_params(ACK_KEY, ts.as_str());
            let ghost l = self.log();
            self.exec(crate::settings::SETTING_WRITE_SQL, &p)?;
            proof {
                lemma_count_push(l, self.log().last(), REMOTE_TRASH_SQL@);
                assert(self.log() =~= l.push(self.log().last()));
                assert(self.sent_since(*old(self)).last() == self.log().last());
            }
        }
        proof {
            lemma_sent_grows(*old(self), s0, sa);
            lemma_sent_grows(*old(self), sa, *self);
            lemma_count_since(*old(self), *self, REMOTE_TRASH_SQL@);
            assert(self.sent_since(*old(self))[0] == first);
            assert forall|j: int| 0 <= j < tombstones@.len() implies remembered(
                self.sent_since(*old(self)),
                (#[trigger] tombstones@[j]).0@,
                tombstones@[j].1@,
            ) by {
                let s = choose|s: bool| #[trigger] tombstoned(sa.sent_since(*old(self)), tombstones@[j].0@, tombstones@[j].1@, s);
                lemma_tombstoned_grows(*old(self), sa, *self, tombstones@[j].0@, tombstones@[j].1@, s);
            }
        }
        Ok((applied, ack))
    }
}

} // verus!
