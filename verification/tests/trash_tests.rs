use clipvault::db::ClipboardDb;
use clipvault::record::ClipboardRecord;

fn temp_db() -> ClipboardDb {
    ClipboardDb::open_in_memory("C:\\media").unwrap()
}

fn make_record(content: &str, hash: &str, trashed: bool) -> ClipboardRecord {
    ClipboardRecord {
        id: 0,
        content: content.to_string(),
        content_type: "text".into(),
        source_app: String::new(),
        source_window: String::new(),
        source_name: String::new(),
        source_device_id: String::new(),
        hash: hash.to_string(),
        copy_count: 0,
        is_favorite: false,
        is_pinned: false,
        is_sensitive: false,
        is_trashed: trashed,
        auto_expire_at: None,
        created_at: "2026-01-01T00:00:00Z".to_string(),
        updated_at: "2026-01-01T00:00:00Z".to_string(),
        tags: vec![],
        tag_colors: Vec::new(),
        content_html: None,
        media_path: None,
        thumb_path: None,
        width: None,
        height: None,
        media_abs: None,
        thumb_abs: None,
        content_len: None,
        alias: String::new(),
    }
}

#[test]
fn clear_all_data_wipes_records_media_tags_and_histories() {
    let mut db = temp_db();
    let media_hash = "a".repeat(64);
    let media_rel = format!("media/{media_hash}.png");
    let thumb_rel = format!("media/thumbs/{media_hash}.jpg");

    let mut img = make_record("image copy", "img-hash", false);
    img.content_type = "image".into();
    img.media_path = Some(media_rel.clone());
    img.thumb_path = Some(thumb_rel.clone());
    let mut trashed = make_record("deleted", "trash-hash", true);
    trashed.is_pinned = true;
    db.import_records_with_merge(
        &[make_record("hello", "txt-hash", false), img, trashed],
        100,
        None,
    )
    .unwrap();

    let tag_id = db.create_tag("user-tag", "#ff0000").unwrap();
    let records = db.get_records_for_export(10, 0).unwrap();
    let record_id = records[0].id;
    db.set_record_tags(record_id, &[tag_id]).unwrap();
    db.record_search_history("clipboard").unwrap();
    db.insert_sync_history("sync", true, 1, 0, 0, 0, 0, 0, 0, 0, None)
        .unwrap();
    db.upsert_tombstone("txt-hash", "2026-02-01T00:00:00Z", false)
        .unwrap();
    db.apply_remote_tombstones(&[("remote-hash".into(), "2026-02-02T00:00:00Z".into())])
        .unwrap();
    db.connection()
        .execute(
            "INSERT OR REPLACE INTO settings (key, value) VALUES ('app_keep_me', '1')",
            [],
        )
        .unwrap();

    let media = db.clear_all_data().unwrap();

    assert!(db.get_records_for_export(10, 0).unwrap().is_empty());
    assert_eq!(db.get_trash_count().unwrap(), 0);
    // The media of the wiped rows are handed back for purging.
    assert!(media
        .iter()
        .any(|(m, t)| m.as_deref() == Some(media_rel.as_str())
            && t.as_deref() == Some(thumb_rel.as_str())));
    let tags = db.get_all_tags(None, false).unwrap();
    assert!(tags.len() == 5);
    assert!(!tags.iter().any(|t| t.name == "user-tag"));
    assert!(tags.iter().all(|t| t.count == 0));
    assert!(db.get_search_history(10).unwrap().is_empty());
    assert!(db.get_sync_history(10).unwrap().is_empty());
    assert!(db.get_sync_tombstones().unwrap().is_empty());
    assert!(db.get_tombstone_ack().unwrap().is_none());
    let kept: Option<String> = db
        .connection()
        .query_row(
            "SELECT value FROM settings WHERE key = 'app_keep_me'",
            [],
            |row| row.get(0),
        )
        .ok();
    assert_eq!(kept.as_deref(), Some("1"));
    let count: i64 = db
        .connection()
        .query_row("SELECT COUNT(*) FROM records", [], |row| row.get(0))
        .unwrap();
    assert_eq!(count, 0);
}

#[test]
fn clear_all_data_is_idempotent_on_empty_db() {
    let mut db = temp_db();
    db.clear_all_data().unwrap();
    db.clear_all_data().unwrap();
    assert!(db.get_records_for_export(10, 0).unwrap().is_empty());
}

#[test]
fn clear_all_data_does_not_write_tombstones() {
    let mut db = temp_db();
    let mut sensitive = make_record("sensitive copy", "sens-hash", false);
    sensitive.is_sensitive = true;
    db.import_records_with_merge(&[sensitive], 100, None).unwrap();
    db.clear_all_data().unwrap();
    assert!(db.get_sync_tombstones().unwrap().is_empty());
}

#[test]
fn restore_removes_tombstone_and_bumps_updated_at() {
    let mut db = temp_db();
    db.import_records_with_merge(&[make_record("data", "restore-hash", false)], 100, None)
        .unwrap();
    let id = db.get_records_for_export(10, 0).unwrap()[0].id;
    db.trash_record(id).unwrap();
    assert!(!db.get_sync_tombstones().unwrap().is_empty());

    db.restore_record(id).unwrap();

    assert!(db.get_sync_tombstones().unwrap().is_empty());
    let updated_at: String = db
        .connection()
        .query_row("SELECT updated_at FROM records WHERE id = ?", [id], |r| r.get(0))
        .unwrap();
    assert!(updated_at.as_str() > "2026-01-01T00:00:00Z");
}
