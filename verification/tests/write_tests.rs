use clipvault::content::{sha256_hash, sha256_hash_bytes, CapturedText, ContentType};
use clipvault::db::ClipboardDb;
use clipvault::record::{AutoTagRule, ClipboardRecord, FeatureFlags, Settings};

fn temp_db() -> ClipboardDb {
    ClipboardDb::open_in_memory("C:\\media").unwrap()
}

fn settings_with_device(device: &str) -> Settings {
    let mut s = Settings::default();
    s.webdav_device_id = device.to_string();
    s
}

fn insert_from(
    db: &mut ClipboardDb,
    content: &str,
    device: &str,
    html: Option<&str>,
) -> (i64, bool, ClipboardRecord) {
    let hash = sha256_hash(&sha256_hash(content));
    db.insert_record(
        content,
        &ContentType::Text,
        &hash,
        false,
        1000,
        600,
        "app.exe",
        "win",
        "",
        &settings_with_device(device),
        None,
        html)
    .unwrap()
}

fn insert(db: &mut ClipboardDb, content: &str) -> (i64, bool, ClipboardRecord) {
    insert_from(db, content, "", None)
}

fn insert_html(db: &mut ClipboardDb, content: &str, html: Option<&str>) -> (i64, bool, ClipboardRecord) {
    insert_from(db, content, "", html)
}

fn default_settings() -> Settings {
    Settings {
        features: FeatureFlags {
            ai: true,
            tags: true,
            batch: true,
        },
        enable_ai: false,
        ai_base_url: String::new(),
        ai_api_key: String::new(),
        ai_model: String::new(),
        ai_summary_alias: true,
        ai_auto_tag: true,
        ai_max_chars: 2000,
        ai_min_chars: 0,
        language: "zh".into(),
        enable_sensitive_detection: true,
        sensitive_auto_expire_seconds: 600,
        theme: "system".into(),
        enable_blur: true,
        blur_strength: 20,
        enable_animation: true,
        panel_opacity: 100,
        max_records: 1000,
        retention_days: 0,
        enable_auto_tag: true,
        auto_tag_rules: Vec::new(),
        ignored_apps: Vec::new(),
        webdav_device_id: String::new(),
    }
}

#[test]
fn record_hash_exists_matches_active_and_trashed_rows() {
    let mut db = temp_db();
    let (id, is_new, _) = insert(&mut db, "hello world");
    assert!(is_new);
    let text_hash = sha256_hash(&sha256_hash("hello world"));
    assert!(db.record_hash_exists(&text_hash).unwrap());
    assert!(!db
        .record_hash_exists(&sha256_hash(&sha256_hash("absent")))
        .unwrap());
    db.trash_record(id).unwrap();
    assert!(db.record_hash_exists(&text_hash).unwrap());
}

#[test]
fn record_hash_exists_false_for_image_hash_and_empty_db() {
    let mut db = temp_db();
    let image_hash = sha256_hash_bytes(&[1u8, 2, 3, 4]);
    assert!(!db.record_hash_exists(&image_hash).unwrap());
}

#[test]
fn unique_active_hash_blocks_duplicate_insert() {
    let mut db = temp_db();
    let hash = sha256_hash(&sha256_hash("dup guard"));
    insert(&mut db, "dup guard");
    let err = db.connection().execute(
        "INSERT INTO records (content, content_type, hash, created_at, updated_at)
         VALUES ('dup guard', 'text', ?, '2026-01-01T00:00:00Z', '2026-01-01T00:00:00Z')",
        [&hash],
    );
    assert!(matches!(
        err,
        Err(rusqlite::Error::SqliteFailure(
            rusqlite::ffi::Error {
                code: rusqlite::ErrorCode::ConstraintViolation,
                ..
            },
            _
        ))
    ));
}

#[test]
fn recopy_after_trash_inserts_fresh_and_restore_prefers_active() {
    let mut db = temp_db();
    let (first_id, _, _) = insert(&mut db, "lifecycle");
    db.trash_record(first_id).unwrap();
    let (second_id, is_new, _) = insert(&mut db, "lifecycle");
    assert!(is_new);
    assert_ne!(first_id, second_id);
    db.restore_record(first_id).unwrap();
    assert!(db.get_record(first_id).unwrap().is_none());
    assert!(db.get_record(second_id).unwrap().is_some());
}

#[test]
fn insert_stamps_device_origin_and_recopy_keeps_it() {
    let mut db = temp_db();
    let (_, is_new, rec) = insert_from(&mut db, "origin text", "dev-1", None);
    assert!(is_new);
    assert_eq!(rec.source_device_id, "dev-1");
    // A re-copy on a device that reports another id keeps the origin.
    let (_, is_new2, rec2) = insert_from(&mut db, "origin text", "dev-2", None);
    assert!(!is_new2);
    assert_eq!(rec2.source_device_id, "dev-1");
}

#[test]
fn recopy_refreshes_content_html_when_payload_changes() {
    let mut db = temp_db();
    let (id, is_new, _) = insert_html(&mut db, "hello", Some("<b>hello</b>"));
    assert!(is_new);
    let (_, is_new2, _) = insert_html(&mut db, "hello", Some("<i>hello</i>"));
    assert!(!is_new2);
    let rec = db.get_record(id).unwrap().unwrap();
    assert_eq!(rec.content_html.as_deref(), Some("<i>hello</i>"));
}

#[test]
fn recopy_without_html_keeps_existing_rich_text() {
    let mut db = temp_db();
    let (id, _, _) = insert_html(&mut db, "hello", Some("<b>hello</b>"));
    let (_, is_new, _) = insert(&mut db, "hello");
    assert!(!is_new);
    let rec = db.get_record(id).unwrap().unwrap();
    assert_eq!(rec.content_html.as_deref(), Some("<b>hello</b>"));
}

#[test]
fn bump_copy_count_increments_active_row_only() {
    let mut db = temp_db();
    let (id, _, _) = insert(&mut db, "paste me");
    db.bump_copy_count(id).unwrap();
    assert_eq!(db.get_record(id).unwrap().unwrap().copy_count, 1);
    db.trash_record(id).unwrap();
    db.bump_copy_count(id).unwrap();
    assert_eq!(db.get_record(id).unwrap().unwrap().copy_count, 1);
}

#[test]
fn insert_record_applies_auto_tags_on_new_insert() {
    let mut db = temp_db();
    let content = "https://example.com/auto-tag";
    let hash = sha256_hash(&sha256_hash(content));
    let (id, is_new, rec) = db
        .insert_record(
            content,
            &ContentType::Link,
            &hash,
            false,
            1000,
            600,
            "app.exe",
            "win",
            "",
            &Settings::default(),
            None,
            None,
        )
        .unwrap();
    assert!(is_new);
    assert!(
        rec.tags.iter().any(|t| t == "链接"),
        "fresh insert must attach auto-tags in the same write lock: {:?}",
        rec.tags
    );
    assert_eq!(db.get_record_tag_names(id).unwrap(), rec.tags);

    // Hash-dedup refresh must not retag.
    let (id2, is_new2, _) = db
        .insert_record(
            content,
            &ContentType::Link,
            &hash,
            false,
            1000,
            600,
            "other.exe",
            "win2",
            "",
            &Settings::default(),
            None,
            None,
        )
        .unwrap();
    assert!(!is_new2);
    assert_eq!(id2, id);
    assert_eq!(db.get_record_tag_names(id).unwrap(), rec.tags);
}

#[test]
fn increment_copy_count_counts_every_row() {
    let mut db = temp_db();
    let (id, _, _) = insert(&mut db, "counted");
    db.increment_copy_count(id).unwrap();
    db.increment_copy_count(id).unwrap();
    assert_eq!(db.get_record(id).unwrap().unwrap().copy_count, 2);
}

#[test]
fn dedup_recopy_refreshes_fts_source_columns() {
    let mut db = temp_db();
    let hash = sha256_hash(&sha256_hash("same text"));
    let (id, is_new, _) = db
        .insert_record(
            "same text",
            &ContentType::Text,
            &hash,
            false,
            100,
            600,
            "first.exe",
            "First",
            "First",
            &Settings::default(),
            None,
            None)
        .unwrap();
    assert!(is_new);
    let (_, is_new2, _) = db
        .insert_record(
            "same text",
            &ContentType::Text,
            &hash,
            false,
            100,
            600,
            "second.exe",
            "Second",
            "Second",
            &Settings::default(),
            None,
            None)
        .unwrap();
    assert!(!is_new2);
    let (app, win): (String, String) = db
        .connection()
        .query_row(
            "SELECT source_app, source_window FROM records_fts WHERE rowid = ?",
            [id],
            |row| Ok((row.get(0)?, row.get(1)?)),
        )
        .unwrap();
    assert_eq!(app, "second.exe");
    assert_eq!(win, "Second");
}
