use clipvault::content::sha256_hash;
use clipvault::db::ClipboardDb;
use clipvault::query::{build_fts_match, escape_like, id_placeholders, SqlParam, RECORD_COLS, RECORD_COLS_LIST};
use clipvault::record::ClipboardRecord;
use clipvault::records::map_record_row;
use clipvault::sqlite::query;

fn fresh_db() -> rusqlite::Connection {
    let conn = rusqlite::Connection::open_in_memory().unwrap();
    conn.execute_batch("PRAGMA journal_mode=WAL; PRAGMA foreign_keys=ON;")
        .unwrap();
    ClipboardDb::initialize_schema(&conn).unwrap();
    conn
}

#[test]
fn text_hash_v2_rehashes_and_merges_html_variant_duplicates() {
    let conn = fresh_db();
    ClipboardDb::ensure_fts(&conn).unwrap();
    conn.execute(
        "INSERT INTO records (content, content_type, hash, copy_count, is_favorite, created_at, updated_at)
         VALUES ('hello world', 'text', 'legacy-a', 1, 1, '2026-01-01T00:00:00Z', '2026-01-01T00:00:00Z')",
        [],
    )
    .unwrap();
    conn.execute(
        "INSERT INTO records (content, content_type, hash, copy_count, created_at, updated_at)
         VALUES ('hello world', 'text', 'legacy-b', 2, '2026-01-01T00:00:00Z', '2026-01-02T00:00:00Z')",
        [],
    )
    .unwrap();
    conn.execute("INSERT INTO tags (name, color) VALUES ('work', '#ef4444')", [])
        .unwrap();
    conn.execute("INSERT INTO record_tags (record_id, tag_id) VALUES (1, 1)", [])
        .unwrap();

    ClipboardDb::migrate_text_hash_v2(&conn).unwrap();

    let expected_hash = sha256_hash(&sha256_hash("hello world"));
    let count: i64 = conn
        .query_row("SELECT COUNT(*) FROM records WHERE is_trashed = 0", [], |r| r.get(0))
        .unwrap();
    assert_eq!(count, 1);
    let (hash, fav, copies): (String, i32, i32) = conn
        .query_row("SELECT hash, is_favorite, copy_count FROM records", [], |r| {
            Ok((r.get(0)?, r.get(1)?, r.get(2)?))
        })
        .unwrap();
    assert_eq!(hash, expected_hash);
    assert_eq!(fav, 1);
    assert_eq!(copies, 3);
    let tag_links: i64 = conn
        .query_row("SELECT COUNT(*) FROM record_tags WHERE record_id = 2", [], |r| r.get(0))
        .unwrap();
    assert_eq!(tag_links, 1);
    let fts: i64 = conn
        .query_row("SELECT COUNT(*) FROM records_fts", [], |r| r.get(0))
        .unwrap();
    assert_eq!(fts, 1);

    ClipboardDb::migrate_text_hash_v2(&conn).unwrap();
    let count2: i64 = conn
        .query_row("SELECT COUNT(*) FROM records", [], |r| r.get(0))
        .unwrap();
    assert_eq!(count2, 1);
}

#[test]
fn db_escape_like_escapes_wildcards() {
    assert_eq!(escape_like("100%"), "100\\%");
    assert_eq!(escape_like("a_b"), "a\\_b");
    assert_eq!(escape_like("c:\\x"), "c:\\\\x");
    assert_eq!(escape_like("plain"), "plain");
}

#[test]
fn db_fts_match_needs_three_chars() {
    assert_eq!(build_fts_match("ab"), None);
    assert_eq!(build_fts_match("  x "), None);
    assert_eq!(build_fts_match("abc"), Some("\"abc\"".to_string()));
}

#[test]
fn db_fts_match_escapes_quotes() {
    assert_eq!(build_fts_match(r#"a"b"#), Some("\"a\"\"b\"".to_string()));
}

#[test]
fn db_placeholders_join_count() {
    assert_eq!(id_placeholders(0), "");
    assert_eq!(id_placeholders(1), "?");
    assert_eq!(id_placeholders(3), "?,?,?");
}

#[test]
fn map_record_row_binds_column_order_for_both_column_lists() {
    let mut db = ClipboardDb::open_in_memory("C:\\media").unwrap();
    let rec = ClipboardRecord {
        id: 0,
        content: "hello <b>world</b>".into(),
        content_type: "text".into(),
        source_app: "app.exe".into(),
        source_window: "Window".into(),
        source_name: "Friendly".into(),
        source_device_id: "dev-origin".into(),
        hash: "map-row-hash".into(),
        copy_count: 3,
        is_favorite: true,
        is_pinned: false,
        is_sensitive: false,
        is_trashed: false,
        auto_expire_at: None,
        created_at: "2026-01-01T00:00:00Z".into(),
        updated_at: "2026-01-01T00:00:00Z".into(),
        tags: vec!["重要".into()],
        tag_colors: Vec::new(),
        content_html: Some("<b>world</b>".into()),
        media_path: None,
        thumb_path: None,
        width: None,
        height: None,
        media_abs: None,
        thumb_abs: None,
        content_len: None,
        alias: "my-alias".into(),
    };
    db.import_records_with_merge(&[rec], 100, None).unwrap();
    let id = db.get_records_for_export(10, 0).unwrap()[0].id;

    for cols in [RECORD_COLS, RECORD_COLS_LIST] {
        let rows = query(
            db.connection(),
            &format!("SELECT {cols} FROM records WHERE id = ?"),
            &vec![SqlParam::Int(id)],
        )
        .unwrap();
        let mapped = map_record_row(&rows[0], "C:\\media").unwrap();
        assert_eq!(mapped.content, "hello <b>world</b>");
        assert_eq!(mapped.source_app, "app.exe");
        assert_eq!(mapped.source_window, "Window");
        assert_eq!(mapped.source_name, "Friendly");
        assert_eq!(mapped.source_device_id, "dev-origin");
        let expected_hash = sha256_hash(&sha256_hash("hello <b>world</b>"));
        assert_eq!(mapped.hash, expected_hash);
        assert_eq!(mapped.copy_count, 3);
        assert!(mapped.is_favorite);
        assert_eq!(mapped.alias, "my-alias");
        assert_eq!(mapped.content_len, Some(18));
        if cols == RECORD_COLS {
            assert_eq!(mapped.content_html.as_deref(), Some("<b>world</b>"));
        } else {
            assert!(mapped.content_html.is_none(), "list rows must omit HTML");
        }
    }
}

/// A named in-memory database that several connections share while one of
/// them stays open.
fn shared_memory_db(name: &str) -> (String, rusqlite::Connection) {
    let uri = format!("file:{name}?mode=memory&cache=shared");
    let conn = rusqlite::Connection::open(&uri).unwrap();
    conn.execute_batch("PRAGMA foreign_keys=ON;").unwrap();
    (uri, conn)
}

#[test]
fn startup_drops_legacy_full_unique_hash_index() {
    let (uri, setup) = shared_memory_db("legacy_hash_unique");
    ClipboardDb::initialize_schema(&setup).unwrap();
    setup
        .execute_batch(
            "CREATE UNIQUE INDEX idx_records_hash_unique ON records(hash);
             INSERT INTO records (content, content_type, hash, is_trashed, created_at, updated_at)
             VALUES ('legacy', 'image', 'h', 0, '2099-08-01T00:00:00Z', '2099-08-01T00:00:00Z');
             UPDATE records SET is_trashed = 1 WHERE id = 1;",
        )
        .unwrap();

    let mut db = ClipboardDb::new(&uri, "C:\\media").unwrap();
    let conn = db.connection();
    let (legacy_gone, partial_kept): (i64, i64) = conn
        .query_row(
            "SELECT
                (SELECT COUNT(*) FROM sqlite_master WHERE type='index' AND name='idx_records_hash_unique'),
                (SELECT COUNT(*) FROM sqlite_master WHERE type='index' AND name='uq_records_hash_active')",
            [],
            |r| Ok((r.get(0)?, r.get(1)?)),
        )
        .unwrap();
    assert_eq!(legacy_gone, 0, "legacy full-unique index must be dropped");
    assert_eq!(partial_kept, 1, "partial active-unique index must survive");
    conn.execute(
        "INSERT INTO records (content, content_type, hash, is_trashed, created_at, updated_at)
         VALUES ('fresh', 'image', 'h', 0, '2099-08-02T00:00:00Z', '2099-08-02T00:00:00Z')",
        [],
    )
    .unwrap();
    let (active, trashed): (i64, i64) = conn
        .query_row(
            "SELECT
                (SELECT COUNT(*) FROM records WHERE hash = 'h' AND is_trashed = 0),
                (SELECT COUNT(*) FROM records WHERE hash = 'h' AND is_trashed = 1)",
            [],
            |r| Ok((r.get(0)?, r.get(1)?)),
        )
        .unwrap();
    assert_eq!((active, trashed), (1, 1));
    drop(setup);
}

#[test]
fn new_succeeds_when_legacy_db_has_no_fts() {
    let (uri, setup) = shared_memory_db("legacy_no_fts");
    ClipboardDb::initialize_schema(&setup).unwrap();
    setup
        .execute_batch(
            "DROP TRIGGER IF EXISTS records_fts_ai;
             DROP TRIGGER IF EXISTS records_fts_ad;
             DROP TRIGGER IF EXISTS records_fts_au;
             DROP TRIGGER IF EXISTS record_tags_fts_ai;
             DROP TRIGGER IF EXISTS record_tags_fts_ad;
             DROP TRIGGER IF EXISTS tags_fts_au;
             DROP TABLE IF EXISTS records_fts;",
        )
        .unwrap();
    setup
        .execute("DELETE FROM settings WHERE key = 'fts_version'", [])
        .unwrap();
    setup
        .execute(
            "INSERT INTO records (content, content_type, hash, created_at, updated_at)
             VALUES ('dup text', 'text', 'legacy-x', '2026-01-01T00:00:00Z', '2026-01-01T00:00:00Z')",
            [],
        )
        .unwrap();
    setup
        .execute(
            "INSERT INTO records (content, content_type, hash, created_at, updated_at)
             VALUES ('dup text', 'text', 'legacy-y', '2026-01-01T00:00:00Z', '2026-01-02T00:00:00Z')",
            [],
        )
        .unwrap();

    let mut db = ClipboardDb::new(&uri, "C:\\media").unwrap();
    assert_eq!(db.get_records_for_export(10, 0).unwrap().len(), 1);
    let fts_rows: i64 = db
        .connection()
        .query_row("SELECT COUNT(*) FROM records_fts", [], |r| r.get(0))
        .unwrap();
    assert_eq!(fts_rows, 1);
    drop(setup);
}
