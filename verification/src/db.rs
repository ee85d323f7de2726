//! The clipboard history store: schema, one-shot migrations, and the
//! connection the record and tag operations run on.
use vstd::prelude::*;

use crate::query::{params_view, SqlParam, SqlValue};
use crate::sqlite::{
    exec, exec_batch, first_int, first_int_spec, first_text, first_text_spec, query, query_text,
    sql_error, sqlite_open, sqlite_open_in_memory, DbError, Sent, SqlCell,
};
use crate::text::{chars_of, push_char, str_eq};

verus! {

/// Schema version stamped into `settings(key='schema_version')`.
pub const SCHEMA_VERSION: i64 = 8;

/// Built-in tags seeded on schema init.
pub const DEFAULT_TAGS_INSERT: &'static str = "INSERT OR IGNORE INTO tags (name, color, is_auto) VALUES
    ('部署', '#22c55e', 1),
    ('前端', '#6366f1', 1),
    ('链接', '#eab308', 1),
    ('重要', '#ef4444', 0),
    ('设计', '#a855f7', 0);";

/// The clipboard history database.
pub struct ClipboardDb {
    conn: rusqlite::Connection,
    media_root: String,
    media_root_prefix: String,
    /// Every statement sent on `conn` since the store was opened, with
    /// what SQLite answered.
    log: Ghost<Seq<Sent>>,
}

/// `root` with a trailing path separator (`\` added unless it already ends
/// in `\` or `/`).
pub open spec fn media_prefix_spec(root: Seq<char>) -> Seq<char> {
    if root.len() > 0 && (root.last() == '\\' || root.last() == '/') {
        root
    } else {
        root.push('\\')
    }
}

pub fn media_prefix(root: &str) -> (r: String)
    ensures
        r@ == media_prefix_spec(root@),
{
    let v = chars_of(root);
    let mut s = root.to_owned();
    if v.len() == 0 || (v[v.len() - 1] != '\\' && v[v.len() - 1] != '/') {
        push_char(&mut s, '\\');
    }
    s
}

/// Whether the one-shot flag `key` is stored as `'1'`. A failed read counts
/// as not set, so the migration it guards runs again (they are idempotent).
pub fn flag_done(conn: &rusqlite::Connection, key: &str) -> (r: bool) {
    let mut params: Vec<SqlParam> = Vec::new();
    params.push(SqlParam::Text(key.to_owned()));
    match query_text(conn, "SELECT value FROM settings WHERE key = ?", &params) {
        Ok(Some(v)) => str_eq(v.as_str(), "1"),
        _ => false,
    }
}

/// `e` runs `sql` with the bound values `params`.
pub open spec fn is_run(e: Sent, sql: Seq<char>, params: Seq<SqlValue>) -> bool {
    e matches Sent::Ran(s, p, _) && s == sql && p == params
}

/// Some entry of `log` runs `sql` with `params`.
pub open spec fn sent_run(log: Seq<Sent>, sql: Seq<char>, params: Seq<SqlValue>) -> bool {
    exists|i: int| 0 <= i < log.len() && #[trigger] is_run(log[i], sql, params)
}

/// No entry of `log` runs `sql`, whatever its bound values.
pub open spec fn never_runs(log: Seq<Sent>, sql: Seq<char>) -> bool {
    forall|i: int| 0 <= i < log.len() ==> !(#[trigger] log[i] matches Sent::Ran(s, _, _) && s == sql)
}

/// A statement that ran last is among what was sent since `prev`.
pub proof fn lemma_last_run(prev: ClipboardDb, cur: ClipboardDb, sql: Seq<char>, params: Seq<SqlValue>)
    requires
        prev.log().len() < cur.log().len(),
        is_run(cur.log().last(), sql, params),
    ensures
        sent_run(cur.sent_since(prev), sql, params),
{
    let d = cur.sent_since(prev);
    assert(d[d.len() - 1] == cur.log().last());
}

/// `e` is among the entries of `log`.
pub open spec fn logged(log: Seq<Sent>, e: Sent) -> bool {
    exists|i: int| 0 <= i < log.len() && #[trigger] log[i] == e
}

/// What was sent since `prev` stays sent, in place, as the log grows.
pub proof fn lemma_sent_grows(prev: ClipboardDb, mid: ClipboardDb, cur: ClipboardDb)
    requires
        mid.frame(prev),
        cur.frame(mid),
    ensures
        cur.frame(prev),
        mid.sent_since(prev).is_prefix_of(cur.sent_since(prev)),
        mid.sent_since(prev).len() <= cur.sent_since(prev).len(),
        forall|i: int|
            0 <= i < mid.sent_since(prev).len() ==> #[trigger] cur.sent_since(prev)[i] == mid.sent_since(
                prev,
            )[i],
        forall|sql: Seq<char>, params: Seq<SqlValue>|
            sent_run(mid.sent_since(prev), sql, params) ==> #[trigger] sent_run(
                cur.sent_since(prev),
                sql,
                params,
            ),
        forall|e: Sent| logged(mid.sent_since(prev), e) ==> #[trigger] logged(cur.sent_since(prev), e),
        forall|sql: Seq<char>, params: Seq<SqlValue>|
            sent_run(cur.sent_since(mid), sql, params) ==> #[trigger] sent_run(
                cur.sent_since(prev),
                sql,
                params,
            ),
        forall|e: Sent| logged(cur.sent_since(mid), e) ==> #[trigger] logged(cur.sent_since(prev), e),
{
    let d = mid.sent_since(prev);
    let c = cur.sent_since(prev);
    assert forall|i: int| 0 <= i < d.len() implies c[i] == d[i] by {
        assert(cur.log()[prev.log().len() + i] == mid.log()[prev.log().len() + i]);
    }
    assert forall|sql: Seq<char>, params: Seq<SqlValue>|
        sent_run(d, sql, params) implies #[trigger] sent_run(c, sql, params) by {
        let i = choose|i: int| 0 <= i < d.len() && #[trigger] is_run(d[i], sql, params);
        assert(is_run(c[i], sql, params));
    }
    assert forall|e: Sent| logged(d, e) implies #[trigger] logged(c, e) by {
        let i = choose|i: int| 0 <= i < d.len() && #[trigger] d[i] == e;
        assert(c[i] == e);
    }
    let t = cur.sent_since(mid);
    let off = mid.log().len() - prev.log().len();
    assert forall|i: int| 0 <= i < t.len() implies c[off + i] == t[i] by {
        assert(cur.log()[mid.log().len() + i] == t[i]);
    }
    assert forall|sql: Seq<char>, params: Seq<SqlValue>|
        sent_run(t, sql, params) implies #[trigger] sent_run(c, sql, params) by {
        let i = choose|i: int| 0 <= i < t.len() && #[trigger] is_run(t[i], sql, params);
        assert(is_run(c[off + i], sql, params));
    }
    assert forall|e: Sent| logged(t, e) implies #[trigger] logged(c, e) by {
        let i = choose|i: int| 0 <= i < t.len() && #[trigger] t[i] == e;
        assert(c[off + i] == e);
    }
}

/// A statement that ran last is among what was sent since `prev`, and was
/// logged there.
pub proof fn lemma_last_logged(prev: ClipboardDb, cur: ClipboardDb)
    requires
        cur.frame(prev),
        prev.log().len() < cur.log().len(),
    ensures
        logged(cur.sent_since(prev), cur.log().last()),
{
    let d = cur.sent_since(prev);
    assert(d[d.len() - 1] == cur.log().last());
}

/// How many entries of `log` run `sql`, whatever their bound values.
pub open spec fn count_runs(log: Seq<Sent>, sql: Seq<char>) -> nat
    decreases log.len(),
{
    if log.len() == 0 {
        0
    } else {
        count_runs(log.drop_last(), sql) + if log.last() matches Sent::Ran(s, _, _) && s == sql {
            1nat
        } else {
            0nat
        }
    }
}

/// One more entry counts when it runs `sql`.
pub proof fn lemma_count_push(log: Seq<Sent>, e: Sent, sql: Seq<char>)
    ensures
        count_runs(log.push(e), sql) == count_runs(log, sql) + if e matches Sent::Ran(s, _, _) && s
            == sql {
            1nat
        } else {
            0nat
        },
{
    assert(log.push(e).drop_last() =~= log);
}

/// Counts add up over a concatenation.
pub proof fn lemma_count_concat(a: Seq<Sent>, b: Seq<Sent>, sql: Seq<char>)
    ensures
        count_runs(a + b, sql) == count_runs(a, sql) + count_runs(b, sql),
    decreases b.len(),
{
    if b.len() == 0 {
        assert(a + b =~= a);
    } else {
        lemma_count_concat(a, b.drop_last(), sql);
        assert((a + b).drop_last() =~= a + b.drop_last());
    }
}

/// Counting over what was sent since `prev` is counting the difference.
pub proof fn lemma_count_since(prev: ClipboardDb, cur: ClipboardDb, sql: Seq<char>)
    requires
        cur.frame(prev),
    ensures
        count_runs(cur.sent_since(prev), sql) == count_runs(cur.log(), sql) - count_runs(prev.log(), sql),
{
    assert(cur.log() =~= prev.log() + cur.sent_since(prev));
    lemma_count_concat(prev.log(), cur.sent_since(prev), sql);
}

/// Between `prev` and `cur` no statement ran: only queries were read.
pub open spec fn reads_only(prev: ClipboardDb, cur: ClipboardDb) -> bool {
    forall|q: Seq<char>| #[trigger] count_runs(cur.log(), q) == count_runs(prev.log(), q)
}

/// `e` is a query of `sql` with `params`, whatever it returned.
pub open spec fn is_read(e: Sent, sql: Seq<char>, params: Seq<SqlValue>) -> bool {
    e matches Sent::Read(s, p, _) && s == sql && p == params
}

/// `log` is a transaction that did not commit: the BEGIN itself was
/// refused, or the ROLLBACK was the last thing sent after the BEGIN.
pub open spec fn rolled_back(log: Seq<Sent>) -> bool {
    ||| log == seq![Sent::Refused("BEGIN"@, Seq::empty())]
    ||| log.len() > 1 && log[0] == Sent::Batch("BEGIN"@) && (log.last() == Sent::Batch("ROLLBACK"@)
        || log.last() == Sent::Refused("ROLLBACK"@, Seq::empty()))
}

/// After the BEGIN at the start of what `mid` sent since `prev`, a
/// ROLLBACK sent last leaves a rolled-back transaction.
pub proof fn lemma_rolled_back(prev: ClipboardDb, mid: ClipboardDb, cur: ClipboardDb)
    requires
        mid.frame(prev),
        cur.frame(mid),
        mid.sent_since(prev).len() > 0,
        mid.sent_since(prev)[0] == Sent::Batch("BEGIN"@),
        cur.log() == mid.log().push(Sent::Batch("ROLLBACK"@)) || cur.log() == mid.log().push(
            Sent::Refused("ROLLBACK"@, Seq::empty()),
        ),
    ensures
        rolled_back(cur.sent_since(prev)),
{
    lemma_sent_grows(prev, mid, cur);
    assert(cur.sent_since(prev).last() == cur.log().last());
}

/// Bound values `[t, i]`.
pub open spec fn text_int(t: Seq<char>, i: int) -> Seq<SqlValue> {
    seq![SqlValue::Text(t), SqlValue::Int(i)]
}

/// `log` is exactly one run of `sql` with `params`.
pub open spec fn runs_one(log: Seq<Sent>, sql: Seq<char>, params: Seq<SqlValue>) -> bool {
    crate::sqlite::runs(log, seq![(sql, params)])
}

/// The log entry of a query that returned `rows`.
pub open spec fn read_of(sql: Seq<char>, params: Seq<SqlValue>, rows: Seq<Vec<SqlCell>>) -> Sent {
    Sent::Read(sql, params, rows)
}

impl ClipboardDb {
    fn configure_connection(conn: &rusqlite::Connection, query_only: bool) -> (r: Result<(), DbError>) {
        exec_batch(
            conn,
            "PRAGMA journal_mode=WAL;
             PRAGMA synchronous=NORMAL;
             PRAGMA foreign_keys=ON;
             PRAGMA busy_timeout=5000;",
        )?;
        if query_only {
            exec_batch(conn, "PRAGMA query_only=ON;")?;
        }
        Ok(())
    }

    /// Open (creating if needed) the history at `db_path`, bring its schema
    /// up to date and stamp the schema version. Media files live under
    /// `media_root`.
    pub fn new(db_path: &str, media_root: &str) -> (r: Result<ClipboardDb, DbError>)
        ensures
            r matches Ok(db) ==> db.media_root_view() == media_root@ && db.media_prefix_view()
                == media_prefix_spec(media_root@) && db.log().len() == 0,
    {
        let conn = match sqlite_open(db_path) {
            Ok(c) => c,
            Err(e) => {
                return Err(sql_error(e));
            },
        };
        Self::open_with(conn, media_root)
    }

    /// A fresh history held in memory (nothing is written to disk).
    pub fn open_in_memory(media_root: &str) -> (r: Result<ClipboardDb, DbError>)
        ensures
            r matches Ok(db) ==> db.media_root_view() == media_root@ && db.media_prefix_view()
                == media_prefix_spec(media_root@) && db.log().len() == 0,
    {
        let conn = match sqlite_open_in_memory() {
            Ok(c) => c,
            Err(e) => {
                return Err(sql_error(e));
            },
        };
        Self::open_with(conn, media_root)
    }

    fn open_with(conn: rusqlite::Connection, media_root: &str) -> (r: Result<ClipboardDb, DbError>)
        ensures
            r matches Ok(db) ==> db.media_root_view() == media_root@ && db.media_prefix_view()
                == media_prefix_spec(media_root@) && db.log().len() == 0,
    {
        Self::configure_connection(&conn, false)?;
        Self::initialize_schema(&conn)?;
        Self::ensure_fts(&conn)?;
        if !flag_done(&conn, "content_len_backfill") {
            exec(
                &conn,
                "UPDATE records SET content_len = length(content) WHERE content_len = 0",
                &Vec::new(),
            )?;
            exec(
                &conn,
                "INSERT OR REPLACE INTO settings (key, value) VALUES ('content_len_backfill', '1')",
                &Vec::new(),
            )?;
        }
        Self::migrate_tag_palette_v2(&conn)?;
        Self::migrate_text_hash_v2(&conn)?;
        Self::apply_schema_version(&conn)?;
        Ok(ClipboardDb {
            conn,
            media_root: media_root.to_owned(),
            media_root_prefix: media_prefix(media_root),
            log: Ghost(Seq::empty()),
        })
    }

    pub closed spec fn media_root_view(&self) -> Seq<char> {
        self.media_root@
    }

    pub closed spec fn media_prefix_view(&self) -> Seq<char> {
        self.media_root_prefix@
    }

    /// Directory that holds the media files.
    pub fn media_root(&self) -> (r: &str)
        ensures
            r@ == self.media_root_view(),
    {
        self.media_root.as_str()
    }

    /// The statements sent through this store, oldest first.
    pub closed spec fn log(&self) -> Seq<Sent> {
        self.log@
    }

    /// What was sent through this store after `prev`'s log.
    pub open spec fn sent_since(self, prev: ClipboardDb) -> Seq<Sent> {
        self.log().subrange(prev.log().len() as int, self.log().len() as int)
    }

    /// Same connection and media directory as `prev` (only the log differs).
    pub open spec fn frame(self, prev: ClipboardDb) -> bool {
        &&& self.media_root_view() == prev.media_root_view()
        &&& self.media_prefix_view() == prev.media_prefix_view()
        &&& self.connection_view() == prev.connection_view()
        &&& prev.log().is_prefix_of(self.log())
    }

    /// Run one statement with `params` bound in order; the rows changed.
    pub fn exec(&mut self, sql: &str, params: &Vec<SqlParam>) -> (r: Result<usize, DbError>)
        ensures
            final(self).frame(*old(self)),
            match r {
                Ok(n) => final(self).log() == old(self).log().push(
                    Sent::Ran(sql@, params_view(params@), n as int),
                ),
                Err(e) => e is Sql && final(self).log() == old(self).log().push(
                    Sent::Refused(sql@, params_view(params@)),
                ),
            },
    {
        let r = crate::sqlite::exec(&self.conn, sql, params);
        proof {
            match r {
                Ok(n) => {
                    self.log@ = self.log@.push(Sent::Ran(sql@, params_view(params@), n as int));
                },
                Err(_) => {
                    self.log@ = self.log@.push(Sent::Refused(sql@, params_view(params@)));
                },
            }
        }
        r
    }

    /// Run a batch of statements (no bound values).
    pub fn exec_batch(&mut self, sql: &str) -> (r: Result<(), DbError>)
        ensures
            final(self).frame(*old(self)),
            match r {
                Ok(_) => final(self).log() == old(self).log().push(Sent::Batch(sql@)),
                Err(e) => e is Sql && final(self).log() == old(self).log().push(
                    Sent::Refused(sql@, Seq::empty()),
                ),
            },
    {
        let r = crate::sqlite::exec_batch(&self.conn, sql);
        proof {
            match r {
                Ok(_) => {
                    self.log@ = self.log@.push(Sent::Batch(sql@));
                },
                Err(_) => {
                    self.log@ = self.log@.push(Sent::Refused(sql@, Seq::empty()));
                },
            }
        }
        r
    }

    /// Run one query with `params` bound in order; every row it returned.
    pub fn query(&mut self, sql: &str, params: &Vec<SqlParam>) -> (r: Result<Vec<Vec<SqlCell>>, DbError>)
        ensures
            final(self).frame(*old(self)),
            reads_only(*old(self), *final(self)),
            match r {
                Ok(rows) => final(self).log() == old(self).log().push(
                    Sent::Read(sql@, params_view(params@), rows@),
                ),
                Err(e) => e is Sql && final(self).log() == old(self).log().push(
                    Sent::Refused(sql@, params_view(params@)),
                ),
            },
    {
        let r = crate::sqlite::query(&self.conn, sql, params);
        proof {
            match &r {
                Ok(rows) => {
                    self.log@ = self.log@.push(Sent::Read(sql@, params_view(params@), rows@));
                },
                Err(_) => {
                    self.log@ = self.log@.push(Sent::Refused(sql@, params_view(params@)));
                },
            }
            assert forall|q: Seq<char>| #[trigger] count_runs(self.log(), q) == count_runs(old(self).log(), q) by {
                lemma_count_push(old(self).log(), self.log().last(), q);
                assert(self.log() =~= old(self).log().push(self.log().last()));
            }
        }
        r
    }

    /// Roll back the open transaction (whether SQLite accepts it or not).
    pub(crate) fn rollback(&mut self)
        ensures
            final(self).frame(*old(self)),
            final(self).log() == old(self).log().push(Sent::Batch("ROLLBACK"@)) || final(self).log()
                == old(self).log().push(Sent::Refused("ROLLBACK"@, Seq::empty())),
    {
        let _ = self.exec_batch("ROLLBACK");
    }

    /// A query's first integer cell (`COUNT(*)`, an id).
    pub fn query_int(&mut self, sql: &str, params: &Vec<SqlParam>) -> (r: Result<Option<i64>, DbError>)
        ensures
            final(self).frame(*old(self)),
            reads_only(*old(self), *final(self)),
            match r {
                Ok(v) => exists|rows: Seq<Vec<SqlCell>>|
                    final(self).log() == old(self).log().push(
                        #[trigger] read_of(sql@, params_view(params@), rows),
                    ) && v == first_int_spec(rows),
                Err(e) => e is Sql && final(self).log() == old(self).log().push(
                    Sent::Refused(sql@, params_view(params@)),
                ),
            },
    {
        let rows = self.query(sql, params)?;
        assert(self.log() == old(self).log().push(read_of(sql@, params_view(params@), rows@)));
        Ok(first_int(&rows))
    }

    /// A query's first text cell.
    pub fn query_text(&mut self, sql: &str, params: &Vec<SqlParam>) -> (r: Result<Option<String>, DbError>)
        ensures
            final(self).frame(*old(self)),
            reads_only(*old(self), *final(self)),
            match r {
                Ok(v) => exists|rows: Seq<Vec<SqlCell>>|
                    final(self).log() == old(self).log().push(
                        #[trigger] read_of(sql@, params_view(params@), rows),
                    ) && crate::records::opt_view(v) == first_text_spec(rows),
                Err(e) => e is Sql && final(self).log() == old(self).log().push(
                    Sent::Refused(sql@, params_view(params@)),
                ),
            },
    {
        let rows = self.query(sql, params)?;
        assert(self.log() == old(self).log().push(read_of(sql@, params_view(params@), rows@)));
        let t = first_text(&rows);
        assert(crate::records::opt_view(t) == first_text_spec(rows@));
        Ok(t)
    }

    /// The rowid of the latest successful insert on this connection.
    pub fn last_insert_rowid(&mut self) -> (r: i64)
        ensures
            final(self).frame(*old(self)),
            final(self).log() == old(self).log().push(Sent::Rowid(r)),
    {
        let r = crate::sqlite::last_insert_rowid(&self.conn);
        proof {
            self.log@ = self.log@.push(Sent::Rowid(r));
        }
        r
    }

    /// The connection this store was opened with.
    pub closed spec fn connection_view(&self) -> rusqlite::Connection {
        self.conn
    }

    /// The store's SQLite connection.
    pub fn connection(&self) -> (r: &rusqlite::Connection)
        ensures
            *r == self.connection_view(),
    {
        &self.conn
    }

    pub(crate) fn prefix(&self) -> (r: &str)
        ensures
            r@ == self.media_prefix_view(),
    {
        self.media_root_prefix.as_str()
    }

    /// The schema version this library writes.
    pub fn schema_version() -> (r: i64)
        ensures
            r == SCHEMA_VERSION,
    {
        SCHEMA_VERSION
    }

    /// Create every table and index (idempotent), add columns missing from
    /// older databases, and run the one-shot index migrations.
    pub fn initialize_schema(conn: &rusqlite::Connection) -> (r: Result<(), DbError>) {
        exec_batch(
            conn,
            "
            CREATE TABLE IF NOT EXISTS records (
                id INTEGER PRIMARY KEY AUTOINCREMENT,
                content TEXT NOT NULL,
                content_type TEXT NOT NULL DEFAULT 'text',
                source_app TEXT NOT NULL DEFAULT '',
                source_window TEXT NOT NULL DEFAULT '',
                hash TEXT NOT NULL,
                copy_count INTEGER NOT NULL DEFAULT 0,
                is_favorite INTEGER NOT NULL DEFAULT 0,
                is_pinned INTEGER NOT NULL DEFAULT 0,
                is_sensitive INTEGER NOT NULL DEFAULT 0,
                is_trashed INTEGER NOT NULL DEFAULT 0,
                auto_expire_at TEXT,
                created_at TEXT NOT NULL,
                updated_at TEXT NOT NULL,
                media_path TEXT,
                thumb_path TEXT,
                width INTEGER,
                height INTEGER,
                content_html TEXT,
                content_len INTEGER NOT NULL DEFAULT 0,
                alias TEXT NOT NULL DEFAULT '',
                source_name TEXT NOT NULL DEFAULT '',
                source_device_id TEXT NOT NULL DEFAULT ''
            );

            CREATE INDEX IF NOT EXISTS idx_records_updated_at ON records(updated_at DESC);
            CREATE INDEX IF NOT EXISTS idx_records_hash ON records(hash);
            CREATE INDEX IF NOT EXISTS idx_records_content_type ON records(content_type);
            CREATE INDEX IF NOT EXISTS idx_records_is_favorite ON records(is_favorite);
            CREATE INDEX IF NOT EXISTS idx_records_hash_active
                ON records(hash, is_trashed);
            CREATE INDEX IF NOT EXISTS idx_records_auto_expire
                ON records(auto_expire_at) WHERE auto_expire_at IS NOT NULL;
            ",
        )?;
        Self::migrate_schema(conn)?;
        exec_batch(
            conn,
            "
            CREATE TABLE IF NOT EXISTS tags (
                id INTEGER PRIMARY KEY AUTOINCREMENT,
                name TEXT NOT NULL UNIQUE,
                color TEXT NOT NULL DEFAULT '#6366f1',
                is_auto INTEGER NOT NULL DEFAULT 0
            );

            CREATE TABLE IF NOT EXISTS record_tags (
                record_id INTEGER NOT NULL,
                tag_id INTEGER NOT NULL,
                PRIMARY KEY (record_id, tag_id),
                FOREIGN KEY (record_id) REFERENCES records(id) ON DELETE CASCADE,
                FOREIGN KEY (tag_id) REFERENCES tags(id) ON DELETE CASCADE
            );
            CREATE INDEX IF NOT EXISTS idx_record_tags_tag_id ON record_tags(tag_id);

            CREATE TABLE IF NOT EXISTS settings (
                key TEXT PRIMARY KEY,
                value TEXT NOT NULL
            );
            CREATE TABLE IF NOT EXISTS sync_tombstones (
                hash TEXT PRIMARY KEY,
                deleted_at TEXT NOT NULL,
                is_sensitive INTEGER NOT NULL DEFAULT 0
            );
            CREATE TABLE IF NOT EXISTS search_history (
                query TEXT PRIMARY KEY,
                search_count INTEGER NOT NULL DEFAULT 1,
                last_searched_at TEXT NOT NULL
            );
            CREATE TABLE IF NOT EXISTS sync_history (
                id INTEGER PRIMARY KEY AUTOINCREMENT,
                synced_at TEXT NOT NULL,
                action TEXT NOT NULL,
                success INTEGER NOT NULL,
                pulled INTEGER NOT NULL DEFAULT 0,
                pushed INTEGER NOT NULL DEFAULT 0,
                merged INTEGER NOT NULL DEFAULT 0,
                tags_pulled INTEGER NOT NULL DEFAULT 0,
                tags_pushed INTEGER NOT NULL DEFAULT 0,
                media_downloaded INTEGER NOT NULL DEFAULT 0,
                media_uploaded INTEGER NOT NULL DEFAULT 0,
                media_skipped INTEGER NOT NULL DEFAULT 0,
                error TEXT
            );
            CREATE INDEX IF NOT EXISTS idx_sync_history_synced_at
                ON sync_history(synced_at DESC);
            CREATE TABLE IF NOT EXISTS tag_tombstones (
                name TEXT PRIMARY KEY,
                deleted_at TEXT NOT NULL
            );
            ",
        )?;
        exec_batch(conn, DEFAULT_TAGS_INSERT)?;
        Self::migrate_tag_stamps(conn)?;
        Self::migrate_keyset_indexes(conn)?;
        Self::migrate_list_order_index(conn)?;
        Self::enforce_active_hash_uniqueness(conn)?;
        Ok(())
    }

    /// Column names of `table` (`PRAGMA table_info`).
    fn table_columns(conn: &rusqlite::Connection, pragma_sql: &str) -> (r: Result<Vec<String>, DbError>) {
        let rows = query(conn, pragma_sql, &Vec::new())?;
        let mut names: Vec<String> = Vec::new();
        let mut i: usize = 0;
        while i < rows.len()
            invariant
                0 <= i <= rows.len(),
            decreases rows.len() - i,
        {
            if rows[i].len() > 1 {
                if let SqlCell::Text(name) = &rows[i][1] {
                    names.push(name.clone());
                }
            }
            i = i + 1;
        }
        Ok(names)
    }

    fn add_column_if_missing(
        conn: &rusqlite::Connection,
        existing: &Vec<String>,
        table: &str,
        name: &str,
        ddl: &str,
    ) -> (r: Result<(), DbError>) {
        let mut i: usize = 0;
        while i < existing.len()
            invariant
                0 <= i <= existing.len(),
            decreases existing.len() - i,
        {
            if str_eq(existing[i].as_str(), name) {
                return Ok(());
            }
            i = i + 1;
        }
        let mut sql = String::new();
        sql.append("ALTER TABLE ");
        sql.append(table);
        sql.append(" ADD COLUMN ");
        sql.append(name);
        sql.append(" ");
        sql.append(ddl);
        exec_batch(conn, sql.as_str())
    }

    /// Add the record columns that databases older than their introduction
    /// lack; a column already present is never touched.
    pub fn migrate_schema(conn: &rusqlite::Connection) -> (r: Result<(), DbError>) {
        let cols = Self::table_columns(conn, "PRAGMA table_info(records)")?;
        Self::add_column_if_missing(conn, &cols, "records", "is_trashed", "INTEGER NOT NULL DEFAULT 0")?;
        Self::add_column_if_missing(conn, &cols, "records", "media_path", "TEXT")?;
        Self::add_column_if_missing(conn, &cols, "records", "thumb_path", "TEXT")?;
        Self::add_column_if_missing(conn, &cols, "records", "width", "INTEGER")?;
        Self::add_column_if_missing(conn, &cols, "records", "height", "INTEGER")?;
        Self::add_column_if_missing(conn, &cols, "records", "content_html", "TEXT")?;
        Self::add_column_if_missing(
            conn,
            &cols,
            "records",
            "content_len",
            "INTEGER NOT NULL DEFAULT 0",
        )?;
        Self::add_column_if_missing(conn, &cols, "records", "alias", "TEXT NOT NULL DEFAULT ''")?;
        Self::add_column_if_missing(
            conn,
            &cols,
            "records",
            "source_name",
            "TEXT NOT NULL DEFAULT ''",
        )?;
        Self::add_column_if_missing(
            conn,
            &cols,
            "records",
            "source_device_id",
            "TEXT NOT NULL DEFAULT ''",
        )?;
        exec_batch(
            conn,
            "CREATE INDEX IF NOT EXISTS idx_records_hash_active
             ON records(hash, is_trashed);",
        )
    }

    /// Tag definitions carry an `updated_at` stamp for last-writer-wins sync;
    /// rows that predate it get the epoch sentinel.
    fn migrate_tag_stamps(conn: &rusqlite::Connection) -> (r: Result<(), DbError>) {
        let cols = Self::table_columns(conn, "PRAGMA table_info(tags)")?;
        Self::add_column_if_missing(
            conn,
            &cols,
            "tags",
            "updated_at",
            "TEXT NOT NULL DEFAULT '1970-01-01T00:00:00Z'",
        )
    }

    /// One-shot (`keyset_index_v2`): list indexes carry the `id` tiebreak.
    fn migrate_keyset_indexes(conn: &rusqlite::Connection) -> (r: Result<(), DbError>) {
        if flag_done(conn, "keyset_index_v2") {
            return Ok(());
        }
        exec_batch(
            conn,
            "DROP INDEX IF EXISTS idx_records_trashed_updated;
             DROP INDEX IF EXISTS idx_records_trashed_pinned_updated;
             CREATE INDEX idx_records_trashed_updated
                 ON records(is_trashed, updated_at DESC, id DESC);
             CREATE INDEX idx_records_trashed_pinned_updated
                 ON records(is_trashed, is_pinned, updated_at DESC, id DESC);
             INSERT OR REPLACE INTO settings (key, value) VALUES ('keyset_index_v2', '1');",
        )
    }

    /// One-shot (`list_order_index_v3`): the main list index stores the
    /// pinned column descending, matching the default `ORDER BY`.
    fn migrate_list_order_index(conn: &rusqlite::Connection) -> (r: Result<(), DbError>) {
        if flag_done(conn, "list_order_index_v3") {
            return Ok(());
        }
        exec_batch(
            conn,
            "DROP INDEX IF EXISTS idx_records_trashed_pinned_updated;
             CREATE INDEX idx_records_trashed_pinned_updated
                 ON records(is_trashed, is_pinned DESC, updated_at DESC, id DESC);
             INSERT OR REPLACE INTO settings (key, value) VALUES ('list_order_index_v3', '1');",
        )
    }

    /// At most one active row per hash, enforced by a partial unique index
    /// (trashed rows do not hold the hash).
    fn enforce_active_hash_uniqueness(conn: &rusqlite::Connection) -> (r: Result<(), DbError>) {
        exec_batch(conn, "DROP INDEX IF EXISTS idx_records_hash_unique;")?;
        Self::dedupe_active_hashes(conn)?;
        exec_batch(
            conn,
            "CREATE UNIQUE INDEX IF NOT EXISTS uq_records_hash_active
             ON records(hash) WHERE is_trashed = 0;",
        )
    }

    /// One-shot (`hash_unique_v1`): keep only the most recently updated
    /// active row of each hash.
    fn dedupe_active_hashes(conn: &rusqlite::Connection) -> (r: Result<(), DbError>) {
        if flag_done(conn, "hash_unique_v1") {
            return Ok(());
        }
        exec(
            conn,
            "DELETE FROM records WHERE is_trashed = 0 AND id NOT IN (
                SELECT id FROM (
                    SELECT id, ROW_NUMBER() OVER (
                        PARTITION BY hash
                        ORDER BY updated_at DESC, id DESC
                    ) AS rn
                    FROM records
                    WHERE is_trashed = 0
                )
                WHERE rn = 1
             )",
            &Vec::new(),
        )?;
        exec(
            conn,
            "INSERT OR REPLACE INTO settings (key, value) VALUES ('hash_unique_v1', '1')",
            &Vec::new(),
        )?;
        Ok(())
    }

    /// Create the trigram full-text index and its triggers (version `5`),
    /// unless that version is recorded and the table exists.
    pub fn ensure_fts(conn: &rusqlite::Connection) -> (r: Result<(), DbError>) {
        if flag_fts_current(conn) {
            return Ok(());
        }
        exec_batch(
            conn,
            "
            DROP TRIGGER IF EXISTS records_fts_ai;
            DROP TRIGGER IF EXISTS records_fts_ad;
            DROP TRIGGER IF EXISTS records_fts_au;
            DROP TRIGGER IF EXISTS record_tags_fts_ai;
            DROP TRIGGER IF EXISTS record_tags_fts_ad;
            DROP TRIGGER IF EXISTS tags_fts_au;
            DROP TABLE IF EXISTS records_fts;
            ",
        )?;
        exec_batch(
            conn,
            "
            CREATE VIRTUAL TABLE records_fts USING fts5(
                content,
                source_app,
                source_window,
                tags,
                alias,
                tokenize = 'trigram'
            );

            CREATE TRIGGER records_fts_ai AFTER INSERT ON records BEGIN
                INSERT INTO records_fts(rowid, content, source_app, source_window, tags, alias)
                VALUES (
                    new.id,
                    substr(new.content, 1, 32768),
                    new.source_app,
                    new.source_window,
                    COALESCE((
                        SELECT group_concat(t.name, ' ')
                        FROM record_tags rt
                        INNER JOIN tags t ON t.id = rt.tag_id
                        WHERE rt.record_id = new.id
                    ), ''),
                    new.alias
                );
            END;

            CREATE TRIGGER records_fts_ad AFTER DELETE ON records BEGIN
                DELETE FROM records_fts WHERE rowid = old.id;
            END;

            CREATE TRIGGER records_fts_au AFTER UPDATE OF content ON records BEGIN
                DELETE FROM records_fts WHERE rowid = old.id;
                INSERT INTO records_fts(rowid, content, source_app, source_window, tags, alias)
                VALUES (
                    new.id,
                    substr(new.content, 1, 32768),
                    new.source_app,
                    new.source_window,
                    COALESCE((
                        SELECT group_concat(t.name, ' ')
                        FROM record_tags rt
                        INNER JOIN tags t ON t.id = rt.tag_id
                        WHERE rt.record_id = new.id
                    ), ''),
                    new.alias
                );
            END;

            CREATE TRIGGER tags_fts_au AFTER UPDATE OF name ON tags BEGIN
                DELETE FROM records_fts WHERE rowid IN (
                    SELECT rt.record_id FROM record_tags rt WHERE rt.tag_id = new.id
                );
                INSERT INTO records_fts(rowid, content, source_app, source_window, tags, alias)
                SELECT
                    r.id,
                    substr(r.content, 1, 32768),
                    r.source_app,
                    r.source_window,
                    COALESCE((
                        SELECT group_concat(t.name, ' ')
                        FROM record_tags rt
                        INNER JOIN tags t ON t.id = rt.tag_id
                        WHERE rt.record_id = r.id
                    ), ''),
                    r.alias
                FROM records r
                WHERE r.id IN (SELECT rt.record_id FROM record_tags rt WHERE rt.tag_id = new.id);
            END;
            ",
        )?;
        exec_batch(
            conn,
            "
            INSERT INTO records_fts(rowid, content, source_app, source_window, tags, alias)
            SELECT
                r.id,
                substr(r.content, 1, 32768),
                r.source_app,
                r.source_window,
                COALESCE((
                    SELECT group_concat(t.name, ' ')
                    FROM record_tags rt
                    INNER JOIN tags t ON t.id = rt.tag_id
                    WHERE rt.record_id = r.id
                ), ''),
                r.alias
            FROM records r;
            ",
        )?;
        exec(
            conn,
            "INSERT OR REPLACE INTO settings (key, value) VALUES ('fts_version', '5')",
            &Vec::new(),
        )?;
        Ok(())
    }

    /// Stamp the schema version into the settings table.
    pub fn apply_schema_version(conn: &rusqlite::Connection) -> (r: Result<(), DbError>) {
        exec(
            conn,
            "INSERT OR REPLACE INTO settings (key, value) VALUES ('schema_version', '8')",
            &Vec::new(),
        )?;
        Ok(())
    }
}

/// Whether the recorded full-text version is current and its table exists.
fn flag_fts_current(conn: &rusqlite::Connection) -> (r: bool) {
    let mut params: Vec<SqlParam> = Vec::new();
    params.push(SqlParam::Text("fts_version".to_owned()));
    let current = match query_text(conn, "SELECT value FROM settings WHERE key = ?", &params) {
        Ok(Some(v)) => str_eq(v.as_str(), "5"),
        _ => false,
    };
    if !current {
        return false;
    }
    match query(
        conn,
        "SELECT 1 FROM sqlite_master WHERE type='table' AND name='records_fts'",
        &Vec::new(),
    ) {
        Ok(rows) => rows.len() > 0,
        Err(_) => false,
    }
}

} // verus!
