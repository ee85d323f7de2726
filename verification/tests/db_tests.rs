use clipvault::content::ContentType;
use clipvault::db::ClipboardDb;
use clipvault::record::{AutoTagRule, Settings};
use clipvault::tagsync::TAG_EPOCH_SENTINEL;
use clipvault::query::{PageCursor, RECORD_COLS, RECORD_COLS_LIST};
use clipvault::record::ClipboardRecord;
use clipvault::sqlite::DbError;
use clipvault::sync::{validate_import_records, ExportCursor, ImportSanitize, MAX_IMPORT_CONTENT_BYTES};
use clipvault::tagsync::TagSyncRow;

const EXPECTED_TABLES: &[&str] = &[
    "records",
    "tags",
    "record_tags",
    "settings",
    "sync_tombstones",
    "search_history",
    "sync_history",
];

const EXPECTED_RECORD_COLS: &[&str] = &[
    "id",
    "content",
    "content_type",
    "source_app",
    "source_window",
    "hash",
    "copy_count",
    "is_favorite",
    "is_pinned",
    "is_sensitive",
    "is_trashed",
    "auto_expire_at",
    "created_at",
    "updated_at",
    "media_path",
    "thumb_path",
    "width",
    "height",
    "content_html",
    "content_len",
    "alias",
    "source_name",
    "source_device_id",
];

const EXPECTED_INDEXES: &[&str] = &[
    "idx_records_updated_at",
    "idx_records_hash",
    "idx_records_content_type",
    "idx_records_is_favorite",
    "idx_records_trashed_updated",
    "idx_records_trashed_pinned_updated",
    "idx_records_hash_active",
    "idx_records_auto_expire",
    "idx_record_tags_tag_id",
    "idx_sync_history_synced_at",
];

fn fresh_db() -> rusqlite::Connection {
    let conn = rusqlite::Connection::open_in_memory().unwrap();
    conn.execute_batch("PRAGMA journal_mode=WAL; PRAGMA foreign_keys=ON;")
        .unwrap();
    ClipboardDb::initialize_schema(&conn).unwrap();
    conn
}

fn record_columns(conn: &rusqlite::Connection) -> Vec<String> {
    let mut stmt = conn.prepare("PRAGMA table_info(records)").unwrap();
    let cols: Vec<String> = stmt
        .query_map([], |row| row.get::<_, String>(1))
        .unwrap()
        .filter_map(|r| r.ok())
        .collect();
    cols
}

#[test]
fn schema_all_expected_tables_exist() {
    let conn = fresh_db();
    for table in EXPECTED_TABLES {
        let exists: bool = conn
            .query_row(
                "SELECT 1 FROM sqlite_master WHERE type='table' AND name=?1",
                [table],
                |_| Ok(true),
            )
            .unwrap_or(false);
        assert!(exists, "Missing table: {table}");
    }
}

#[test]
fn schema_records_has_all_columns() {
    let conn = fresh_db();
    let cols = record_columns(&conn);
    for expected in EXPECTED_RECORD_COLS {
        assert!(
            cols.iter().any(|c| c == expected),
            "Missing column '{expected}' in records table. Found: {cols:?}"
        );
    }
}

#[test]
fn schema_all_expected_indexes_exist() {
    let conn = fresh_db();
    for idx in EXPECTED_INDEXES {
        let exists: bool = conn
            .query_row(
                "SELECT 1 FROM sqlite_master WHERE type='index' AND name=?1",
                [idx],
                |_| Ok(true),
            )
            .unwrap_or(false);
        assert!(exists, "Missing index: {idx}");
    }
}

#[test]
fn schema_version_is_stamped_after_init() {
    let conn = fresh_db();
    ClipboardDb::apply_schema_version(&conn).unwrap();
    let stored: i64 = conn
        .query_row(
            "SELECT value FROM settings WHERE key = 'schema_version'",
            [],
            |row| {
                let s: String = row.get(0)?;
                Ok(s.parse::<i64>().unwrap_or(0))
            },
        )
        .unwrap();
    assert_eq!(stored, ClipboardDb::schema_version());
}

#[test]
fn schema_migration_from_old_db_adds_missing_columns() {
    let conn = rusqlite::Connection::open_in_memory().unwrap();
    conn.execute_batch("PRAGMA foreign_keys=ON;").unwrap();
    conn.execute_batch(
        r#"
        CREATE TABLE records (
            id INTEGER PRIMARY KEY AUTOINCREMENT,
            content TEXT NOT NULL,
            content_type TEXT NOT NULL DEFAULT 'text',
            source_app TEXT NOT NULL DEFAULT '',
            source_window TEXT NOT NULL DEFAULT '',
            hash TEXT NOT NULL,
            copy_count INTEGER NOT NULL DEFAULT 0,
            is_favorite INTEGER NOT NULL DEFAULT 0,
            is_pinned INTEGER NOT NULL DEFAULT 0,
            is_sensitive INTEGER NOT NULL DEFAULT 0,
            auto_expire_at TEXT,
            created_at TEXT NOT NULL,
            updated_at TEXT NOT NULL
        );
        CREATE TABLE IF NOT EXISTS settings (
            key TEXT PRIMARY KEY,
            value TEXT NOT NULL
        );
        "#,
    )
    .unwrap();
    ClipboardDb::migrate_schema(&conn).unwrap();
    let cols = record_columns(&conn);
    for expected in EXPECTED_RECORD_COLS {
        assert!(
            cols.iter().any(|c| c == expected),
            "Migration failed: column '{expected}' missing after ALTER TABLE. Found: {cols:?}"
        );
    }
}

#[test]
fn schema_record_col_constants_have_same_arity() {
    let conn = fresh_db();
    let count_top_level_commas = |s: &str| -> usize {
        let mut depth = 0i32;
        let mut count = 0usize;
        for ch in s.chars() {
            match ch {
                '(' => depth += 1,
                ')' => depth -= 1,
                ',' if depth == 0 => count += 1,
                _ => {}
            }
        }
        count
    };
    let full_arity = count_top_level_commas(RECORD_COLS) + 1;
    let list_arity = count_top_level_commas(RECORD_COLS_LIST) + 1;
    assert_eq!(
        full_arity, list_arity,
        "RECORD_COLS has {full_arity} columns but RECORD_COLS_LIST has {list_arity}; \
         they must match 1:1 for map_record_row to work"
    );
    let col_count = record_columns(&conn).len();
    assert!(
        col_count >= full_arity,
        "records table has {col_count} columns but RECORD_COLS expects {full_arity}"
    );
}

fn settings_with_device(device: &str) -> Settings {
    let mut s = Settings::default();
    s.webdav_device_id = device.to_string();
    s
}

fn temp_db() -> ClipboardDb {
    ClipboardDb::open_in_memory("C:\\media").unwrap()
}

fn rec(
    content: &str,
    hash: &str,
    created_at: &str,
    updated_at: &str,
    copy_count: i32,
) -> ClipboardRecord {
    ClipboardRecord {
        id: 0,
        content: content.to_string(),
        content_type: "text".into(),
        source_app: String::new(),
        source_window: String::new(),
        source_name: String::new(),
        source_device_id: String::new(),
        hash: hash.to_string(),
        copy_count,
        is_favorite: false,
        is_pinned: false,
        is_sensitive: false,
        is_trashed: false,
        auto_expire_at: None,
        created_at: created_at.to_string(),
        updated_at: updated_at.to_string(),
        tags: Vec::new(),
        tag_colors: Vec::new(),
        content_html: None,
        media_path: None,
        thumb_path: None,
        width: None,
        height: None,
        media_abs: None,
        thumb_abs: None,
        content_len: None,
        alias: String::new(),
    }
}

fn seed_four(db: &mut ClipboardDb) {
    db.import_records_with_merge(
        &[
            rec("A", "h-a", "2026-01-01T00:00:00Z", "2026-01-01T00:00:00Z", 1),
            rec("B", "h-b", "2026-01-02T00:00:00Z", "2026-01-02T00:00:00Z", 2),
            rec("C", "h-c", "2026-01-03T00:00:00Z", "2026-01-03T00:00:00Z", 3),
            rec("D", "h-d", "2026-01-04T00:00:00Z", "2026-01-04T00:00:00Z", 4),
        ],
        100,
        None,
    )
    .unwrap();
}

fn contents(rows: &[ClipboardRecord]) -> Vec<&str> {
    rows.iter().map(|r| r.content.as_str()).collect()
}

fn page1(db: &mut ClipboardDb, sort: &str) -> Vec<ClipboardRecord> {
    db.get_records(
        2,
        0,
        false,
        None,
        false,
        None,
        Some(sort),
        PageCursor::default(),
        false,
    )
    .unwrap()
}

fn page_after(db: &mut ClipboardDb, sort: &str, last: &ClipboardRecord) -> Vec<ClipboardRecord> {
    db.get_records(
        2,
        0,
        false,
        None,
        false,
        None,
        Some(sort),
        PageCursor {
            pinned: Some(if last.is_pinned { 1 } else { 0 }),
            updated_at: Some(last.updated_at.as_str()),
            id: Some(last.id),
            created_at: Some(last.created_at.as_str()),
            copy_count: Some(last.copy_count),
        },
        false,
    )
    .unwrap()
}

fn assert_stable_page2(sort: &str, incoming: ClipboardRecord) {
    let mut db = temp_db();
    seed_four(&mut db);
    let first = page1(&mut db, sort);
    assert_eq!(first.len(), 2);
    let last = &first[1];
    db.import_records_with_merge(&[incoming], 100, None).unwrap();
    let second = page_after(&mut db, sort, last);
    assert_eq!(contents(&second), ["B", "A"], "sort={sort}");
}

#[test]
fn created_desc_keyset_ignores_a_newer_insert() {
    assert_stable_page2(
        "created_desc",
        rec("E", "h-e", "2026-01-05T00:00:00Z", "2026-01-05T00:00:00Z", 0),
    );
}

#[test]
fn copies_desc_keyset_ignores_a_higher_copy_count_insert() {
    assert_stable_page2(
        "copies_desc",
        rec("E", "h-e", "2026-01-05T00:00:00Z", "2026-01-05T00:00:00Z", 99),
    );
}

#[test]
fn updated_asc_keyset_ignores_an_older_insert() {
    let mut db = temp_db();
    seed_four(&mut db);
    let first = page1(&mut db, "updated_asc");
    assert_eq!(contents(&first), ["A", "B"]);
    db.import_records_with_merge(
        &[rec("Z", "h-z", "2025-12-01T00:00:00Z", "2025-12-01T00:00:00Z", 0)],
        100,
        None,
    )
    .unwrap();
    let second = page_after(&mut db, "updated_asc", &first[1]);
    assert_eq!(contents(&second), ["C", "D"]);
}

#[test]
fn updated_desc_keyset_still_pages_after_a_prepend() {
    assert_stable_page2(
        "updated_desc",
        rec("E", "h-e", "2026-01-05T00:00:00Z", "2026-01-05T00:00:00Z", 0),
    );
}

fn make_record_at(content: &str, hash: &str, tags: &[&str], stamp: &str) -> ClipboardRecord {
    make_record_with_colors(content, hash, tags, &[], stamp)
}

fn make_record_with_colors(
    content: &str,
    hash: &str,
    tags: &[&str],
    colors: &[(&str, &str)],
    stamp: &str,
) -> ClipboardRecord {
    let mut r = rec(content, hash, stamp, stamp, 0);
    r.tags = tags.iter().map(|s| s.to_string()).collect();
    r.tag_colors = colors
        .iter()
        .map(|(n, c)| (n.to_string(), c.to_string()))
        .collect();
    r
}

fn tag_color(db: &mut ClipboardDb, name: &str) -> String {
    let (tags, _) = db.get_tag_sync_rows().unwrap();
    tags.into_iter().find(|t| t.name == name).unwrap().color
}

#[test]
fn import_creates_tags_and_links() {
    let mut db = temp_db();
    db.import_records_with_merge(
        &[make_record_at("hello", "hash-1", &["重要", "链接"], "2026-01-01T00:00:00Z")],
        100,
        None,
    )
    .unwrap();
    let exported = db.get_records_for_export(10, 0).unwrap();
    assert_eq!(exported.len(), 1);
    let mut tags = exported[0].tags.clone();
    tags.sort();
    let mut want = vec!["链接".to_string(), "重要".to_string()];
    want.sort();
    assert_eq!(tags, want);
}

#[test]
fn import_merge_replaces_tags_when_incoming_has_tags() {
    let mut db = temp_db();
    db.import_records_with_merge(
        &[make_record_at("same", "hash-x", &["重要"], "2026-01-01T00:00:00Z")],
        100,
        None,
    )
    .unwrap();
    db.import_records_with_merge(
        &[make_record_at("same", "hash-x", &["链接"], "2026-01-02T00:00:00Z")],
        100,
        None,
    )
    .unwrap();
    let exported = db.get_records_for_export(10, 0).unwrap();
    assert_eq!(exported.len(), 1);
    assert_eq!(exported[0].tags, ["链接"]);
}

#[test]
fn import_merge_preserves_local_tags_for_tagless_snapshot() {
    let mut db = temp_db();
    db.import_records_with_merge(
        &[make_record_at("same", "hash-y", &["重要"], "2026-01-01T00:00:00Z")],
        100,
        None,
    )
    .unwrap();
    db.import_records_with_merge(
        &[make_record_at("same", "hash-y", &[], "2026-01-02T00:00:00Z")],
        100,
        None,
    )
    .unwrap();
    let exported = db.get_records_for_export(10, 0).unwrap();
    assert_eq!(exported[0].tags, ["重要"]);
}

#[test]
fn import_merge_preserves_newer_local_tags_against_older_snapshot() {
    let mut db = temp_db();
    db.import_records_with_merge(
        &[make_record_at("same", "hash-lww", &["重要"], "2026-02-02T00:00:00Z")],
        100,
        None,
    )
    .unwrap();
    db.import_records_with_merge(
        &[make_record_at("same", "hash-lww", &["链接"], "2026-01-02T00:00:00Z")],
        100,
        None,
    )
    .unwrap();
    let exported = db.get_records_for_export(10, 0).unwrap();
    assert_eq!(exported[0].tags, ["重要"]);
}

#[test]
fn import_merge_applies_newer_snapshot_tags_over_stale_local() {
    let mut db = temp_db();
    db.import_records_with_merge(
        &[make_record_at("same", "hash-lww2", &["重要"], "2026-01-02T00:00:00Z")],
        100,
        None,
    )
    .unwrap();
    let (_, _, tc) = db
        .import_records_with_merge(
            &[make_record_at("same", "hash-lww2", &["链接"], "2026-02-02T00:00:00Z")],
            100,
            None,
        )
        .unwrap();
    let exported = db.get_records_for_export(10, 0).unwrap();
    assert_eq!(exported[0].tags, ["链接"]);
    assert_eq!(tc, 1);
}

#[test]
fn import_applies_tag_colors_from_newer_snapshot() {
    let mut db = temp_db();
    db.import_records_with_merge(
        &[make_record_with_colors(
            "color",
            "hash-c1",
            &["工作"],
            &[("工作", "#a855f7")],
            "2026-03-01T00:00:00Z",
        )],
        100,
        None,
    )
    .unwrap();
    assert_eq!(tag_color(&mut db, "工作"), "#a855f7");
}

#[test]
fn import_color_only_change_updates_existing_tag_color() {
    let mut db = temp_db();
    db.import_records_with_merge(
        &[make_record_with_colors(
            "color",
            "hash-c2",
            &["工作"],
            &[("工作", "#ef4444")],
            "2026-01-02T00:00:00Z",
        )],
        100,
        None,
    )
    .unwrap();
    let (_, _, tc) = db
        .import_records_with_merge(
            &[make_record_with_colors(
                "color",
                "hash-c2",
                &["工作"],
                &[("工作", "#22c55e")],
                "2026-02-02T00:00:00Z",
            )],
            100,
            None,
        )
        .unwrap();
    assert_eq!(tc, 0);
    assert_eq!(tag_color(&mut db, "工作"), "#22c55e");
}

#[test]
fn import_older_snapshot_does_not_recolor_tag() {
    let mut db = temp_db();
    db.import_records_with_merge(
        &[make_record_with_colors(
            "color",
            "hash-c3",
            &["工作"],
            &[("工作", "#22c55e")],
            "2026-02-02T00:00:00Z",
        )],
        100,
        None,
    )
    .unwrap();
    db.import_records_with_merge(
        &[make_record_with_colors(
            "color",
            "hash-c3",
            &["工作"],
            &[("工作", "#ef4444")],
            "2026-01-02T00:00:00Z",
        )],
        100,
        None,
    )
    .unwrap();
    assert_eq!(tag_color(&mut db, "工作"), "#22c55e");
}

#[test]
fn export_carries_tag_colors_in_bundle_payload() {
    let mut db = temp_db();
    db.import_records_with_merge(
        &[make_record_with_colors(
            "color",
            "hash-c4",
            &["工作", "重要"],
            &[("工作", "#a855f7"), ("重要", "#ef4444")],
            "2026-03-01T00:00:00Z",
        )],
        100,
        None,
    )
    .unwrap();
    let exported = db.get_records_for_export(10, 0).unwrap();
    let mut colors = exported[0].tag_colors.clone();
    colors.sort();
    assert_eq!(
        colors,
        vec![
            ("工作".to_string(), "#a855f7".to_string()),
            ("重要".to_string(), "#ef4444".to_string()),
        ]
    );
}

#[test]
fn tags_changed_counts_only_real_changes() {
    let mut db = temp_db();
    let (_, _, tc) = db
        .import_records_with_merge(
            &[make_record_at("a", "hash-tc", &["重要"], "2026-01-01T00:00:00Z")],
            100,
            None,
        )
        .unwrap();
    assert_eq!(tc, 1);
    let (_, _, tc) = db
        .import_records_with_merge(
            &[make_record_at("a", "hash-tc", &["重要"], "2026-01-02T00:00:00Z")],
            100,
            None,
        )
        .unwrap();
    assert_eq!(tc, 0);
    let (_, _, tc) = db
        .import_records_with_merge(
            &[make_record_at("a", "hash-tc", &["链接"], "2026-01-03T00:00:00Z")],
            100,
            None,
        )
        .unwrap();
    assert_eq!(tc, 1);
    let (_, _, tc) = db
        .import_records_with_merge(
            &[make_record_at("a", "hash-tc", &[], "2026-01-04T00:00:00Z")],
            100,
            None,
        )
        .unwrap();
    assert_eq!(tc, 0);
}

#[test]
fn import_deduplicates_repeated_hashes_in_one_batch() {
    let mut db = temp_db();
    let records = [
        make_record_at("same", "batch-duplicate", &[], "2026-01-01T00:00:00Z"),
        make_record_at("same", "batch-duplicate", &[], "2026-01-01T00:00:00Z"),
    ];
    let (imported, merged, _) = db.import_records_with_merge(&records, 100, None).unwrap();
    assert_eq!((imported, merged), (1, 1));
    assert_eq!(db.get_records_for_export(10, 0).unwrap().len(), 1);
}

#[test]
fn import_rejects_oversized_content() {
    let record = make_record_at(
        &"x".repeat(MAX_IMPORT_CONTENT_BYTES + 1),
        "oversized-content",
        &[],
        "2026-01-01T00:00:00Z",
    );
    let error = validate_import_records(&[record]).unwrap_err();
    assert!(error.contains("正文过大"));
}

#[test]
fn import_with_merge_reports_the_limit_it_breaks() {
    let mut db = temp_db();
    let record = make_record_at(
        &"x".repeat(MAX_IMPORT_CONTENT_BYTES + 1),
        "oversized-content",
        &[],
        "2026-01-01T00:00:00Z",
    );
    match db.import_records_with_merge(&[record], 100, None) {
        Err(DbError::Invalid(m)) => assert_eq!(m, "记录正文过大（单条上限 16 MB）"),
        other => panic!("unexpected {other:?}"),
    }
    assert_eq!(db.get_records_for_export(10, 0).unwrap().len(), 0);
}

#[test]
fn export_cursor_pages_without_offset() {
    let mut db = temp_db();
    let records = [
        make_record_at("first", "cursor-1", &[], "2026-01-01T00:00:00Z"),
        make_record_at("second", "cursor-2", &[], "2026-01-02T00:00:00Z"),
    ];
    db.import_records_with_merge(&records, 100, None).unwrap();
    let first = db.get_records_for_export_page(1, None).unwrap();
    let cursor = ExportCursor {
        is_pinned: first[0].is_pinned,
        updated_at: first[0].updated_at.clone(),
        id: first[0].id,
    };
    let second = db.get_records_for_export_page(1, Some(&cursor)).unwrap();
    assert_eq!(first.len(), 1);
    assert_eq!(second.len(), 1);
    assert_ne!(first[0].id, second[0].id);
    assert_eq!(first[0].content, "second");
    assert_eq!(second[0].content, "first");
    assert!(first[0].media_abs.is_none());
}

#[test]
fn import_sanitize_recomputes_expiry_and_rechecks_sensitive() {
    let mut db = temp_db();
    let mut r = make_record_at("Your verification code: 123456", "sanitize-1", &[], "2026-01-01T00:00:00Z");
    r.is_sensitive = false;
    r.auto_expire_at = Some("2020-01-01T00:00:00Z".into());
    let policy = ImportSanitize {
        recheck_sensitive: true,
        sensitive_auto_expire_seconds: 600,
    };
    db.import_records_with_merge(&[r], 100, Some(policy)).unwrap();
    let rows = db.get_records_for_export(10, 0).unwrap();
    assert_eq!(rows.len(), 1);
    assert!(rows[0].is_sensitive, "detection must re-flag the record");
    let expiry = rows[0].auto_expire_at.as_deref().expect("expiry set");
    assert!(
        expiry > "2026-01-01T00:00:00Z",
        "expiry must be recomputed from now, got {expiry}"
    );
}

#[test]
fn import_sanitize_never_downgrades_sensitive_flag() {
    let mut db = temp_db();
    let mut r = make_record_at("plain text", "sanitize-2", &[], "2026-01-01T00:00:00Z");
    r.is_sensitive = true;
    let policy = ImportSanitize {
        recheck_sensitive: true,
        sensitive_auto_expire_seconds: 600,
    };
    db.import_records_with_merge(&[r], 100, Some(policy)).unwrap();
    let rows = db.get_records_for_export(10, 0).unwrap();
    assert_eq!(rows.len(), 1);
    assert!(rows[0].is_sensitive);
    assert!(rows[0].auto_expire_at.is_some());
}

#[test]
fn import_sanitize_preserves_past_expiry_when_disabled() {
    let mut db = temp_db();
    let mut r = make_record_at("plain text", "sanitize-3", &[], "2026-01-01T00:00:00Z");
    r.is_sensitive = true;
    r.auto_expire_at = Some("2020-01-01T00:00:00Z".into());
    db.import_records_with_merge(&[r], 100, None).unwrap();
    let rows = db.get_records_for_export(10, 0).unwrap();
    assert_eq!(rows[0].auto_expire_at.as_deref(), Some("2020-01-01T00:00:00Z"));
}

#[test]
fn import_preserves_remote_device_origin() {
    let mut db = temp_db();
    let mut r = make_record_at("remote origin", "origin-remote", &[], "2026-01-01T00:00:00Z");
    r.source_device_id = "dev-remote".to_string();
    db.import_records_with_merge(&[r], 100, None).unwrap();
    let rows = db.get_records_for_export(10, 0).unwrap();
    assert_eq!(rows[0].source_device_id, "dev-remote");
}

#[test]
fn import_merge_keeps_earlier_creator_as_origin() {
    let mut db = temp_db();
    let mut local = make_record_at("same", "origin-merge", &[], "2026-06-01T00:00:00Z");
    local.source_device_id = "dev-local".to_string();
    db.import_records_with_merge(&[local], 100, None).unwrap();
    let mut remote = make_record_at("same", "origin-merge", &[], "2026-07-01T00:00:00Z");
    remote.source_device_id = "dev-remote".to_string();
    remote.created_at = "2026-01-01T00:00:00Z".to_string();
    db.import_records_with_merge(&[remote], 100, None).unwrap();
    let rows = db.get_records_for_export(10, 0).unwrap();
    assert_eq!(rows[0].source_device_id, "dev-remote");
}

#[test]
fn import_merge_never_overwrites_known_origin() {
    let mut db = temp_db();
    let mut local = make_record_at("same", "origin-keep", &[], "2026-01-01T00:00:00Z");
    local.source_device_id = "dev-local".to_string();
    db.import_records_with_merge(&[local], 100, None).unwrap();
    let mut legacy = make_record_at("same", "origin-keep", &[], "2026-01-01T00:00:00Z");
    legacy.created_at = "2025-01-01T00:00:00Z".to_string();
    db.import_records_with_merge(&[legacy], 100, None).unwrap();
    let mut other = make_record_at("same", "origin-keep", &[], "2026-01-01T00:00:00Z");
    other.source_device_id = "dev-other".to_string();
    other.created_at = "2026-06-01T00:00:00Z".to_string();
    db.import_records_with_merge(&[other], 100, None).unwrap();
    let rows = db.get_records_for_export(10, 0).unwrap();
    assert_eq!(rows[0].source_device_id, "dev-local");
}

#[test]
fn import_merge_fills_empty_origin_from_incoming() {
    let mut db = temp_db();
    let local = make_record_at("same", "origin-fill", &[], "2026-06-01T00:00:00Z");
    db.import_records_with_merge(&[local], 100, None).unwrap();
    let mut remote = make_record_at("same", "origin-fill", &[], "2026-06-01T00:00:00Z");
    remote.source_device_id = "dev-remote".to_string();
    remote.created_at = "2026-01-01T00:00:00Z".to_string();
    db.import_records_with_merge(&[remote], 100, None).unwrap();
    let rows = db.get_records_for_export(10, 0).unwrap();
    assert_eq!(rows[0].source_device_id, "dev-remote");
}

#[test]
fn import_merge_ors_flags_and_keeps_larger_counts() {
    let mut db = temp_db();
    let mut local = make_record_at("same", "merge-flags", &[], "2026-01-05T00:00:00Z");
    local.copy_count = 7;
    local.is_favorite = true;
    db.import_records_with_merge(&[local], 100, None).unwrap();
    let mut incoming = make_record_at("same", "merge-flags", &[], "2026-01-01T00:00:00Z");
    incoming.copy_count = 3;
    incoming.is_pinned = true;
    let (inserted, merged, _) = db.import_records_with_merge(&[incoming], 100, None).unwrap();
    assert_eq!((inserted, merged), (0, 1));
    let rows = db.get_records_for_export(10, 0).unwrap();
    assert_eq!(rows.len(), 1);
    assert!(rows[0].is_favorite);
    assert!(rows[0].is_pinned);
    assert_eq!(rows[0].copy_count, 7);
    assert_eq!(rows[0].updated_at, "2026-01-05T00:00:00Z");
}

#[test]
fn import_skips_blank_text_and_drops_unsafe_paths() {
    let mut db = temp_db();
    let blank = make_record_at("   ", "blank", &[], "2026-01-01T00:00:00Z");
    let mut img = make_record_at("", "img-hash", &[], "2026-01-01T00:00:00Z");
    img.content_type = "image".into();
    img.media_path = Some("..\\..\\evil.png".into());
    img.thumb_path = Some("thumbs/a.png".into());
    let mut html = make_record_at("rich", "rich-hash", &[], "2026-01-01T00:00:00Z");
    html.content_html = Some("<p onclick=x><script>alert(1)</script></p>".into());
    let (inserted, merged, _) = db
        .import_records_with_merge(&[blank, img, html], 100, None)
        .unwrap();
    assert_eq!((inserted, merged), (2, 0));
    let rows = db.get_records_for_export(10, 0).unwrap();
    let img_row = rows.iter().find(|r| r.hash == "img-hash").unwrap();
    assert_eq!(img_row.media_path, None);
    assert_eq!(img_row.thumb_path, None);
    let rich = rows.iter().find(|r| r.content == "rich").unwrap();
    assert_eq!(rich.content_html, None);
}

#[test]
fn import_evicts_oldest_unprotected_rows_beyond_capacity() {
    let mut db = temp_db();
    let mut keep = make_record_at("fav", "cap-fav", &[], "2026-01-01T00:00:00Z");
    keep.is_favorite = true;
    let a = make_record_at("a", "cap-a", &[], "2026-01-02T00:00:00Z");
    let b = make_record_at("b", "cap-b", &[], "2026-01-03T00:00:00Z");
    let c = make_record_at("c", "cap-c", &[], "2026-01-04T00:00:00Z");
    let ((inserted, _, _), _) = db
        .import_records_evicting(&[keep, a, b, c], 2, None)
        .unwrap();
    assert_eq!(inserted, 4);
    let mut left: Vec<String> = db
        .get_records_for_export(10, 0)
        .unwrap()
        .into_iter()
        .map(|r| r.content)
        .collect();
    left.sort();
    assert_eq!(left, ["c", "fav"]);
}

#[test]
fn insert_record_dedups_active_hash_and_stamps_origin() {
    let mut db = temp_db();
    let (id, fresh, first) = db
        .insert_record(
            "hello",
            &ContentType::Text,
            "hash-ins",
            false,
            100,
            0,
            "app",
            "win",
            "App",
            &settings_with_device("dev-1"),
            None,
            None)
        .unwrap();
    assert!(fresh);
    assert_eq!(first.id, id);
    assert_eq!(first.source_device_id, "dev-1");
    assert_eq!(first.content_len, Some(5));
    let (id2, fresh2, second) = db
        .insert_record(
            "hello",
            &ContentType::Text,
            "hash-ins",
            false,
            100,
            0,
            "other",
            "win2",
            "Other",
            &settings_with_device("dev-2"),
            None,
            None)
        .unwrap();
    assert!(!fresh2);
    assert_eq!(id2, id);
    assert_eq!(second.source_app, "other");
    assert_eq!(second.source_device_id, "dev-1");
}

#[test]
fn insert_record_sets_expiry_for_sensitive_capture() {
    let mut db = temp_db();
    let (_, _, r) = db
        .insert_record(
            "secret",
            &ContentType::Text,
            "hash-sens",
            true,
            100,
            600,
            "",
            "",
            "",
            &Settings::default(),
            None,
            None)
        .unwrap();
    assert!(r.is_sensitive);
    assert!(r.auto_expire_at.is_some());
}

#[test]
fn take_record_for_paste_does_not_increment_copy_count() {
    let mut db = temp_db();
    let (id, _, _) = db
        .insert_record(
            "paste me",
            &ContentType::Text,
            "hash-paste",
            false,
            100,
            0,
            "",
            "",
            "",
            &Settings::default(),
            None,
            None)
        .unwrap();
    let r = db.take_record_for_paste(id).unwrap().unwrap();
    assert_eq!(r.copy_count, 0);
    db.bump_copy_count(id).unwrap();
    let r = db.get_record(id).unwrap().unwrap();
    assert_eq!(r.copy_count, 1);
}

#[test]
fn record_hash_exists_matches_active_rows() {
    let mut db = temp_db();
    assert!(!db.record_hash_exists("nope").unwrap());
    db.insert_record(
        "x",
        &ContentType::Text,
        "hash-exists",
        false,
        100,
        0,
        "",
        "",
        "",
        &Settings::default(),
        None,
        None)
    .unwrap();
    assert!(db.record_hash_exists("hash-exists").unwrap());
}

fn tag_row(name: &str, color: &str, is_auto: bool, updated_at: &str) -> TagSyncRow {
    TagSyncRow {
        name: name.to_string(),
        color: color.to_string(),
        is_auto,
        updated_at: updated_at.to_string(),
    }
}

#[test]
fn merge_tag_snapshot_adds_and_updates_lww() {
    let mut db = temp_db();

    // Fresh tag definitions from another device.
    let stats = db
        .merge_tag_snapshot(
            &[
                tag_row("工作", "#22c55e", true, "2026-06-01T00:00:00Z"),
                tag_row("家庭", "#ef4444", false, "2026-06-02T00:00:00Z"),
            ],
            &[],
            "2026-06-02T00:00:00Z",
        )
        .unwrap();
    assert_eq!(stats.added, 2);
    assert_eq!(db.get_all_tags(None, false).unwrap().len(), 7); // 5 defaults + 2

    // Newer color wins; an older color is ignored.
    let stats = db
        .merge_tag_snapshot(
            &[tag_row("工作", "#6366f1", true, "2026-06-03T00:00:00Z")],
            &[],
            "2026-06-03T00:00:00Z",
        )
        .unwrap();
    assert_eq!(stats.changed, 1);
    assert_eq!(tag_color(&mut db, "工作"), "#6366f1");

    let stats = db
        .merge_tag_snapshot(
            &[tag_row("工作", "#ef4444", true, "2026-05-01T00:00:00Z")],
            &[],
            "2026-06-03T00:00:00Z",
        )
        .unwrap();
    assert_eq!(stats.changed, 0);
    assert_eq!(tag_color(&mut db, "工作"), "#6366f1");
}

#[test]
fn merge_tag_snapshot_reapplied_changes_nothing() {
    let mut db = temp_db();
    let rows = [
        tag_row("新标签", "#14b8a6", false, "2026-01-02T00:00:00Z"),
        tag_row("重要", "#3b82f6", false, "2026-01-02T00:00:00Z"),
    ];
    let stats = db.merge_tag_snapshot(&rows, &[], "2026-01-02T00:00:00Z").unwrap();
    assert_eq!((stats.added, stats.changed), (1, 1));
    let again = db.merge_tag_snapshot(&rows, &[], "2026-01-02T00:00:00Z").unwrap();
    assert_eq!((again.added, again.changed, again.deleted), (0, 0, 0));
}

#[test]
fn merge_tag_snapshot_tombstone_deletes_and_blocks_resurrection() {
    let mut db = temp_db();
    db.merge_tag_snapshot(
        &[tag_row("临时", "#14b8a6", false, "2026-01-01T00:00:00Z")],
        &[],
        "2026-01-01T00:00:00Z",
    )
    .unwrap();
    let stats = db
        .merge_tag_snapshot(
            &[],
            &[("临时".to_string(), "2026-01-05T00:00:00Z".to_string())],
            "2026-01-01T00:00:00Z",
        )
        .unwrap();
    assert_eq!(stats.deleted, 1);
    let stale = db
        .merge_tag_snapshot(
            &[tag_row("临时", "#14b8a6", false, "2026-01-03T00:00:00Z")],
            &[],
            "2026-01-01T00:00:00Z",
        )
        .unwrap();
    assert_eq!(stale.added, 0);
    let (tags, tombstones) = db.get_tag_sync_rows().unwrap();
    assert!(tags.iter().all(|t| t.name != "临时"));
    assert!(tombstones.iter().any(|(n, _)| n == "临时"));
}

#[test]
fn merge_tag_snapshot_never_gcs_sentinel_defaults() {
    let mut db = temp_db();
    // Fresh DB: defaults are sentinel-stamped and must survive a remote pull
    // whose snapshot doesn't mention them.
    let rows = db.get_tag_sync_rows().unwrap().0;
    assert!(rows.iter().all(|r| r.updated_at == TAG_EPOCH_SENTINEL));
    let stats = db.merge_tag_snapshot(&[], &[], "2099-01-01T00:00:00Z").unwrap();
    assert_eq!(stats.deleted, 0);
    assert_eq!(db.get_all_tags(None, false).unwrap().len(), 5);
}

#[test]
fn apply_tombstone_trashes_older_copy_and_acks() {
    let mut db = temp_db();
    db.import_records_with_merge(
        &[make_record_at("gone", "h-old", &[], "2026-01-01T00:00:00Z")],
        100,
        None,
    )
    .unwrap();
    let hash = db.get_records_for_export(10, 0).unwrap()[0].hash.clone();
    let (trashed, ack) = db
        .apply_remote_tombstones(&[(hash.clone(), "2026-02-01T00:00:00Z".to_string())])
        .unwrap();
    assert_eq!(trashed, 1);
    assert_eq!(ack.as_deref(), Some("2026-02-01T00:00:00Z"));
    assert_eq!(db.get_records_for_export(10, 0).unwrap().len(), 0);
    assert_eq!(db.get_tombstone_ack().unwrap().as_deref(), Some("2026-02-01T00:00:00Z"));
    let stones = db.get_sync_tombstones().unwrap();
    assert!(stones.iter().any(|(h, d, _)| *h == hash && d == "2026-02-01T00:00:00Z"));
}

#[test]
fn apply_tombstone_keeps_newer_recopy() {
    let mut db = temp_db();
    db.import_records_with_merge(
        &[make_record_at("kept", "h-new", &[], "2026-03-01T00:00:00Z")],
        100,
        None,
    )
    .unwrap();
    let hash = db.get_records_for_export(10, 0).unwrap()[0].hash.clone();
    let (trashed, ack) = db
        .apply_remote_tombstones(&[(hash, "2026-02-01T00:00:00Z".to_string())])
        .unwrap();
    assert_eq!(trashed, 0);
    assert_eq!(ack.as_deref(), Some("2026-02-01T00:00:00Z"));
    assert_eq!(db.get_records_for_export(10, 0).unwrap().len(), 1);
}

#[test]
fn upsert_keeps_latest_deleted_at() {
    let mut db = temp_db();
    db.upsert_tombstone("h", "2026-01-02T00:00:00Z", false).unwrap();
    db.upsert_tombstone("h", "2026-01-01T00:00:00Z", true).unwrap();
    let stones = db.get_sync_tombstones().unwrap();
    assert_eq!(stones, vec![("h".to_string(), "2026-01-02T00:00:00Z".to_string(), true)]);
}

#[test]
fn auto_tags_link_matching_rules_once() {
    let mut db = temp_db();
    let (id, _, _) = db
        .insert_record(
            "Deploy to PROD now",
            &ContentType::Text,
            "hash-auto",
            false,
            100,
            0,
            "",
            "",
            "",
            &Settings::default(),
            None,
            None)
        .unwrap();
    let rules = vec![
        AutoTagRule {
            tag_name: " 部署 ".into(),
            content_types: vec![],
            keywords: vec!["prod".into()],
        },
        AutoTagRule {
            tag_name: "部署".into(),
            content_types: vec![ContentType::Text],
            keywords: vec![],
        },
        AutoTagRule {
            tag_name: "图片".into(),
            content_types: vec![ContentType::Image],
            keywords: vec!["   ".into()],
        },
    ];
    db.apply_auto_tags(id, "Deploy to PROD now", &ContentType::Text, &rules)
        .unwrap();
    let r = db.get_record(id).unwrap().unwrap();
    assert_eq!(r.tags, ["部署"]);
}
