use clipvault::db::ClipboardDb;
use clipvault::record::ClipboardRecord;
use clipvault::tagsync::TagSyncRow;

fn temp_db() -> ClipboardDb {
    ClipboardDb::open_in_memory("C:\\media").unwrap()
}

fn tag_row(name: &str, color: &str, is_auto: bool, updated_at: &str) -> TagSyncRow {
    TagSyncRow {
        name: name.to_string(),
        color: color.to_string(),
        is_auto,
        updated_at: updated_at.to_string(),
    }
}

fn record(content: &str, hash: &str, stamp: &str, tags: &[&str]) -> ClipboardRecord {
    ClipboardRecord {
        id: 0,
        content: content.into(),
        content_type: "text".into(),
        source_app: String::new(),
        source_window: String::new(),
        source_name: String::new(),
        source_device_id: String::new(),
        hash: hash.into(),
        copy_count: 0,
        is_favorite: false,
        is_pinned: false,
        is_sensitive: false,
        is_trashed: false,
        auto_expire_at: None,
        created_at: stamp.to_string(),
        updated_at: stamp.to_string(),
        tags: tags.iter().map(|t| t.to_string()).collect(),
        tag_colors: vec![],
        content_html: None,
        media_path: None,
        thumb_path: None,
        width: None,
        height: None,
        media_abs: None,
        thumb_abs: None,
        content_len: None,
        alias: String::new(),
    }
}

fn search(db: &mut ClipboardDb, q: &str) -> Vec<ClipboardRecord> {
    db.search_records(q, 10, 0, None, false, None, None, true, None, None, None)
        .unwrap()
}

#[test]
fn merge_tag_snapshot_tombstone_deletes_tag() {
    let mut db = temp_db();
    db.import_records_with_merge(
        &[record("tomb target", "hash-tomb", "2026-01-01T00:00:00Z", &["临时"])],
        100,
        None,
    )
    .unwrap();
    let stats = db
        .merge_tag_snapshot(
            &[],
            &[("临时".to_string(), "2099-01-01T00:00:00Z".to_string())],
            "2099-01-01T00:00:00Z",
        )
        .unwrap();
    assert_eq!(stats.deleted, 1);
    assert!(db
        .get_all_tags(None, false)
        .unwrap()
        .iter()
        .all(|t| t.name != "临时"));
    assert!(search(&mut db, "临时").is_empty());
}

#[test]
fn merge_tag_snapshot_local_edit_wins_over_older_tombstone() {
    let mut db = temp_db();
    let stamp = "2026-07-01T00:00:00Z";
    db.merge_tag_snapshot(&[tag_row("重要", "#ef4444", false, stamp)], &[], stamp)
        .unwrap();
    let stats = db
        .merge_tag_snapshot(
            &[],
            &[("重要".to_string(), "2026-06-01T00:00:00Z".to_string())],
            "2026-06-01T00:00:00Z",
        )
        .unwrap();
    assert_eq!(stats.deleted, 0);
    assert!(db
        .get_all_tags(None, false)
        .unwrap()
        .iter()
        .any(|t| t.name == "重要"));
}

#[test]
fn tombstone_blocks_stale_bundle_resurrection() {
    let mut db = temp_db();
    let stamp = "2026-05-01T00:00:00Z";
    db.merge_tag_snapshot(
        &[],
        &[("已删".to_string(), "2026-06-01T00:00:00Z".to_string())],
        "2026-06-01T00:00:00Z",
    )
    .unwrap();
    db.import_records_with_merge(&[record("stale bundle", "hash-stale", stamp, &["已删"])], 100, None)
        .unwrap();
    let exported = db.get_records_for_export(10, 0).unwrap();
    assert!(exported[0].tags.is_empty(), "tombstoned tag must not re-link");
}

#[test]
fn merge_tag_snapshot_gc_removes_zero_link_leftovers() {
    let mut db = temp_db();
    let stamp = "2026-01-10T00:00:00Z";
    db.merge_tag_snapshot(&[tag_row("旧名字", "#ef4444", false, stamp)], &[], stamp)
        .unwrap();
    let stats = db.merge_tag_snapshot(&[], &[], "2026-02-01T00:00:00Z").unwrap();
    assert_eq!(stats.deleted, 1);
    assert!(db
        .get_all_tags(None, false)
        .unwrap()
        .iter()
        .all(|t| t.name != "旧名字"));

    db.import_records_with_merge(
        &[record("gc guard", "hash-gc", "2026-03-01T00:00:00Z", &["在用"])],
        100,
        None,
    )
    .unwrap();
    let stats = db.merge_tag_snapshot(&[], &[], "2099-01-01T00:00:00Z").unwrap();
    assert_eq!(stats.deleted, 0);
    assert!(db
        .get_all_tags(None, false)
        .unwrap()
        .iter()
        .any(|t| t.name == "在用"));
}

#[test]
fn deleting_tag_removes_it_from_full_text_search() {
    let mut db = temp_db();
    db.import_records_with_merge(
        &[record("searchable content", "hash-fts-delete", "2026-01-01T00:00:00Z", &[])],
        100,
        None,
    )
    .unwrap();
    let record_id = db.get_records_for_export(10, 0).unwrap()[0].id;
    let tag_id = db.create_tag("stale-search-tag", "#ef4444").unwrap();
    db.add_tag_to_record(record_id, tag_id).unwrap();
    assert_eq!(search(&mut db, "stale-search-tag").len(), 1);
    db.delete_tag(tag_id).unwrap();
    assert!(search(&mut db, "stale-search-tag").is_empty());
}

#[test]
fn tag_mutations_bump_record_updated_at() {
    let mut db = temp_db();
    db.import_records_with_merge(
        &[record("abc", "hash-bump", "2026-01-01T00:00:00Z", &[])],
        100,
        None,
    )
    .unwrap();
    let record_id = db.get_records_for_export(10, 0).unwrap()[0].id;
    let read_updated = |db: &mut ClipboardDb| {
        db.get_records_for_export(10, 0)
            .unwrap()
            .remove(0)
            .updated_at
    };
    let before = read_updated(&mut db);

    let tag_id = db.create_tag("bump-tag-1", "#ef4444").unwrap();
    db.add_tag_to_record(record_id, tag_id).unwrap();
    assert_ne!(read_updated(&mut db), before);

    db.remove_tag_from_record(record_id, tag_id).unwrap();
    assert_ne!(read_updated(&mut db), before);

    // Re-applying the same set must not bump.
    let tag2 = db.create_tag("bump-tag-2", "#eab308").unwrap();
    db.set_record_tags(record_id, &[tag_id, tag2]).unwrap();
    let after_set = read_updated(&mut db);
    db.set_record_tags(record_id, &[tag_id, tag2]).unwrap();
    assert_eq!(read_updated(&mut db), after_set);

    // Renaming or recoloring a tag must not bump linked records.
    db.update_tag(tag_id, "VIP", "#ef4444").unwrap();
    assert_eq!(read_updated(&mut db), after_set);
    db.update_tag(tag_id, "VIP", "#22c55e").unwrap();
    assert_eq!(read_updated(&mut db), after_set);
}

#[test]
fn renamed_tag_is_found_by_its_new_name() {
    let mut db = temp_db();
    db.import_records_with_merge(
        &[record("rename target", "hash-rename", "2026-01-01T00:00:00Z", &[])],
        100,
        None,
    )
    .unwrap();
    let record_id = db.get_records_for_export(10, 0).unwrap()[0].id;
    let tag_id = db.create_tag("oldname", "#ef4444").unwrap();
    db.add_tag_to_record(record_id, tag_id).unwrap();
    db.update_tag(tag_id, "newname", "#ef4444").unwrap();
    assert_eq!(search(&mut db, "newname").len(), 1);
    assert!(search(&mut db, "oldname").is_empty());
}

#[test]
fn deleted_tag_leaves_a_tombstone_for_sync() {
    let mut db = temp_db();
    let tag_id = db.create_tag("gone", "#ef4444").unwrap();
    db.delete_tag(tag_id).unwrap();
    let (tags, tombstones) = db.get_tag_sync_rows().unwrap();
    assert!(tags.iter().all(|t| t.name != "gone"));
    assert!(tombstones.iter().any(|(n, _)| n == "gone"));
    // Re-creating the tag lifts the tombstone.
    db.create_tag("gone", "#ef4444").unwrap();
    let (_, tombstones) = db.get_tag_sync_rows().unwrap();
    assert!(tombstones.iter().all(|(n, _)| n != "gone"));
}

#[test]
fn get_all_tags_serves_ttl_cache_and_invalidates_on_mutation() {
    let mut db = temp_db();
    db.import_records_with_merge(
        &[record("cache test", "hash-tag-cache", "2026-01-01T00:00:00Z", &[])],
        100,
        None,
    )
    .unwrap();
    let record_id = db.get_records_for_export(10, 0).unwrap()[0].id;
    let tag_id = db.create_tag("cache-tag", "#ef4444").unwrap();
    db.add_tag_to_record(record_id, tag_id).unwrap();

    let first = db.get_all_tags(None, false).unwrap();
    let second = db.get_all_tags(None, false).unwrap();
    assert_eq!(first.len(), second.len());
    let names = |tags: &[clipvault::tagdb::TagInfo]| {
        tags.iter().map(|t| t.name.clone()).collect::<Vec<_>>()
    };
    assert_eq!(names(&first), names(&second));

    let before = db.get_all_tags(None, false).unwrap().len();
    db.create_tag("cache-bust", "#22c55e").unwrap();
    let after = db.get_all_tags(None, false).unwrap();
    assert_eq!(after.len(), before + 1);
    assert!(after.iter().any(|t| t.name == "cache-bust"));

    let fav_a = db.get_all_tags(None, true).unwrap();
    let fav_b = db.get_all_tags(None, true).unwrap();
    assert_eq!(names(&fav_a), names(&fav_b));
    assert_eq!(fav_a.len(), db.get_all_tags(None, false).unwrap().len());
}
