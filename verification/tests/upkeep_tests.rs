use clipvault::db::ClipboardDb;
use clipvault::record::ClipboardRecord;
use clipvault::settings::{
    autostart_needs_change, autostart_outcome, check_overwrite, is_autostart_already_cleared,
    remembered_secret, resolve_stored_secret, SettingsError, StoredSecret,
};
use clipvault::sqlite::SqlCell;
use clipvault::upkeep::{saturating_add_i64, stats_from_row};

fn temp_db() -> ClipboardDb {
    ClipboardDb::open_in_memory("C:\\media").unwrap()
}

fn make_record(content: &str, hash: &str, auto_expire_at: Option<&str>) -> ClipboardRecord {
    ClipboardRecord {
        id: 0,
        content: content.to_string(),
        content_type: "text".into(),
        source_app: String::new(),
        source_window: String::new(),
        source_name: String::new(),
        source_device_id: String::new(),
        hash: hash.to_string(),
        copy_count: 0,
        is_favorite: false,
        is_pinned: false,
        is_sensitive: true,
        is_trashed: false,
        auto_expire_at: auto_expire_at.map(str::to_string),
        created_at: "2026-01-01T00:00:00Z".into(),
        updated_at: "2026-01-01T00:00:00Z".into(),
        tags: vec![],
        tag_colors: Vec::new(),
        content_html: None,
        media_path: None,
        thumb_path: None,
        width: None,
        height: None,
        media_abs: None,
        thumb_abs: None,
        content_len: None,
        alias: String::new(),
    }
}

#[test]
fn cleanup_expired_skips_trashed_records() {
    let mut db = temp_db();
    db.import_records_with_merge(
        &[make_record("expired-trash", "exp-trash-1", Some("2000-01-01T00:00:00Z"))],
        100,
        None,
    )
    .unwrap();
    let id = db.get_records_for_export(10, 0).unwrap()[0].id;
    db.trash_record(id).unwrap();
    db.connection()
        .execute(
            "UPDATE records SET auto_expire_at = '2000-01-01T00:00:00Z' WHERE id = ?",
            [id],
        )
        .unwrap();

    let (expired, _) = db.cleanup_expired().unwrap();
    assert!(expired.is_empty(), "trashed rows must survive cleanup_expired");
    assert_eq!(db.get_trash_count().unwrap(), 1);
}

#[test]
fn cleanup_expired_still_deletes_active_expired_rows() {
    let mut db = temp_db();
    db.import_records_with_merge(
        &[make_record("expired-active", "exp-active-1", Some("2000-01-01T00:00:00Z"))],
        100,
        None,
    )
    .unwrap();
    let (expired, _) = db.cleanup_expired().unwrap();
    assert_eq!(expired.len(), 1);
    assert_eq!(db.get_records_for_export(10, 0).unwrap().len(), 0);
}

#[test]
fn trash_record_clears_auto_expire() {
    let mut db = temp_db();
    db.import_records_with_merge(
        &[make_record("expiring", "exp-clear-1", Some("2030-01-01T00:00:00Z"))],
        100,
        None,
    )
    .unwrap();
    let id = db.get_records_for_export(10, 0).unwrap()[0].id;
    db.trash_record(id).unwrap();
    let expiry: Option<String> = db
        .connection()
        .query_row("SELECT auto_expire_at FROM records WHERE id = ?", [id], |r| r.get(0))
        .unwrap();
    assert!(expiry.is_none(), "trash must clear the sensitive auto-expiry");
}

#[test]
fn cleanup_expired_spares_favorites_and_future_expiry() {
    let mut db = temp_db();
    db.import_records_with_merge(
        &[
            make_record("fav", "exp-fav", Some("2000-01-01T00:00:00Z")),
            make_record("later", "exp-later", Some("2999-01-01T00:00:00Z")),
        ],
        100,
        None,
    )
    .unwrap();
    let fav_id = db
        .get_records_for_export(10, 0)
        .unwrap()
        .into_iter()
        .find(|r| r.content == "fav")
        .unwrap()
        .id;
    db.toggle_favorite(fav_id).unwrap();
    let (expired, media) = db.cleanup_expired().unwrap();
    assert!(expired.is_empty());
    assert!(media.is_empty());
    assert_eq!(db.get_records_for_export(10, 0).unwrap().len(), 2);
}

#[test]
fn cleanup_retention_deletes_old_trash_only() {
    let mut db = temp_db();
    db.import_records_with_merge(
        &[
            make_record("old-trash", "ret-1", None),
            make_record("active", "ret-2", None),
        ],
        100,
        None,
    )
    .unwrap();
    let rows = db.get_records_for_export(10, 0).unwrap();
    let old = rows.iter().find(|r| r.content == "old-trash").unwrap().id;
    db.trash_record(old).unwrap();
    db.connection()
        .execute(
            "UPDATE records SET updated_at = '2000-01-01T00:00:00Z'",
            [],
        )
        .unwrap();
    // Non-positive window: nothing happens.
    assert!(db.cleanup_retention(0).unwrap().is_empty());
    assert_eq!(db.get_trash_count().unwrap(), 1);
    db.cleanup_retention(30).unwrap();
    assert_eq!(db.get_trash_count().unwrap(), 0);
    assert_eq!(db.get_records_for_export(10, 0).unwrap().len(), 1);
}

#[test]
fn delete_record_and_batch_remove_rows() {
    let mut db = temp_db();
    db.import_records_with_merge(
        &[
            make_record("a", "del-a", None),
            make_record("b", "del-b", None),
            make_record("c", "del-c", None),
        ],
        100,
        None,
    )
    .unwrap();
    let ids: Vec<i64> = db
        .get_records_for_export(10, 0)
        .unwrap()
        .iter()
        .map(|r| r.id)
        .collect();
    db.delete_record(ids[0]).unwrap();
    assert_eq!(db.get_records_for_export(10, 0).unwrap().len(), 2);
    let (n, _) = db.delete_records_batch(&ids[1..]).unwrap();
    assert_eq!(n, 2);
    assert!(db.get_records_for_export(10, 0).unwrap().is_empty());
    let (none, media) = db.delete_records_batch(&[]).unwrap();
    assert_eq!(none, 0);
    assert!(media.is_empty());
}

#[test]
fn get_records_by_ids_reads_the_listed_rows() {
    let mut db = temp_db();
    db.import_records_with_merge(
        &[make_record("x", "ids-x", None), make_record("y", "ids-y", None)],
        100,
        None,
    )
    .unwrap();
    let all = db.get_records_for_export(10, 0).unwrap();
    let one = db.get_records_by_ids(&[all[0].id]).unwrap();
    assert_eq!(one.len(), 1);
    assert_eq!(one[0].content, all[0].content);
    assert!(db.get_records_by_ids(&[]).unwrap().is_empty());
}

#[test]
fn stats_count_active_records_by_type() {
    let mut db = temp_db();
    db.import_records_with_merge(
        &[make_record("one", "st-1", None), make_record("two", "st-2", None)],
        100,
        None,
    )
    .unwrap();
    let stats = db.get_stats(1000).unwrap();
    assert_eq!(stats.total_records, 2);
    assert_eq!(stats.sensitive_count, 2);
    assert_eq!(stats.type_distribution[0], ("text".to_string(), 2));
    assert_eq!(stats.type_distribution[3], ("image".to_string(), 0));
    assert_eq!(stats.storage_bytes, 1000 + 6);
    assert_eq!(stats.data_path, "C:\\media");
}

#[test]
fn stats_row_needs_eleven_integers() {
    let cells: Vec<SqlCell> = (0..11).map(|i| SqlCell::Int(i)).collect();
    let s = stats_from_row(&cells, i64::MAX, "d").unwrap();
    assert_eq!(s.total_records, 0);
    assert_eq!(s.storage_bytes, i64::MAX);
    assert_eq!(s.type_distribution[4], ("file".to_string(), 10));
    let mut with_null = cells.clone();
    with_null[2] = SqlCell::Null;
    assert!(stats_from_row(&with_null, 0, "d").is_none());
    assert!(stats_from_row(&cells[..10].to_vec(), 0, "d").is_none());
}

#[test]
fn saturating_add_clamps_both_ways() {
    assert_eq!(saturating_add_i64(2, 3), 5);
    assert_eq!(saturating_add_i64(i64::MAX, 1), i64::MAX);
    assert_eq!(saturating_add_i64(i64::MIN, -1), i64::MIN);
}

#[test]
fn stored_secret_reuses_unchanged_ciphertext() {
    assert_eq!(resolve_stored_secret("", "pw", "enc"), StoredSecret::Clear);
    assert_eq!(
        resolve_stored_secret("pw", "pw", "enc"),
        StoredSecret::Reuse("enc".into())
    );
    assert_eq!(resolve_stored_secret("new", "pw", "enc"), StoredSecret::Encrypt);
    assert_eq!(resolve_stored_secret("pw", "", ""), StoredSecret::Encrypt);
    assert_eq!(resolve_stored_secret("pw", "pw", ""), StoredSecret::Encrypt);
}

#[test]
fn remembered_secret_forgets_cleared_values() {
    assert_eq!(remembered_secret("pw", ""), (String::new(), String::new()));
    assert_eq!(
        remembered_secret("pw", "enc"),
        ("pw".to_string(), "enc".to_string())
    );
}

#[test]
fn overwrite_guard_protects_unread_corrupt_blob() {
    assert_eq!(check_overwrite(true, Some(false)), Ok(()));
    assert_eq!(check_overwrite(false, None), Ok(()));
    assert_eq!(check_overwrite(false, Some(true)), Ok(()));
    assert_eq!(
        check_overwrite(false, Some(false)),
        Err(SettingsError::CorruptStoredBlob)
    );
    assert_eq!(
        SettingsError::CorruptStoredBlob.message(),
        "stored settings blob is corrupt; refusing to overwrite it"
    );
    assert_eq!(
        SettingsError::Encryption("boom".into()).message(),
        "settings encryption failed: boom"
    );
}

#[test]
fn settings_blob_round_trips() {
    let mut db = temp_db();
    assert_eq!(db.read_settings_json().unwrap(), None);
    db.write_settings_json("{\"theme\":\"dark\"}").unwrap();
    assert_eq!(
        db.read_settings_json().unwrap().as_deref(),
        Some("{\"theme\":\"dark\"}")
    );
    db.write_settings_json("{}").unwrap();
    assert_eq!(db.read_settings_json().unwrap().as_deref(), Some("{}"));
}

#[test]
fn autostart_missing_entry_counts_as_disabled() {
    assert!(is_autostart_already_cleared("系统找不到指定的文件。 (os error 2)"));
    assert!(is_autostart_already_cleared("Entry NOT FOUND"));
    assert!(!is_autostart_already_cleared("access denied"));
    assert!(!autostart_needs_change(true, Some(true)));
    assert!(autostart_needs_change(true, Some(false)));
    assert!(autostart_needs_change(false, None));
    assert_eq!(autostart_outcome(true, None), Ok(()));
    assert_eq!(autostart_outcome(false, Some("os error 2")), Ok(()));
    assert_eq!(
        autostart_outcome(true, Some("os error 2")),
        Err("Failed to enable autostart: os error 2".to_string())
    );
    assert_eq!(
        autostart_outcome(false, Some("access denied")),
        Err("Failed to disable autostart: access denied".to_string())
    );
}
