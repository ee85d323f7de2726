use clipvault::bundle::snapshot_applies;
use clipvault::capture::refresh_record;
use clipvault::content::ContentType;
use clipvault::db::ClipboardDb;
use clipvault::paste::PasteFailure;
use clipvault::record::{AutoTagRule, Settings};

fn temp_db() -> ClipboardDb {
    ClipboardDb::open_in_memory("/tmp/clipvault-media").unwrap()
}

fn tagging_settings() -> Settings {
    let mut s = Settings::default();
    s.features.tags = true;
    s.enable_auto_tag = true;
    s.auto_tag_rules = vec![AutoTagRule {
        tag_name: "问候".to_string(),
        keywords: vec!["hello".to_string()],
        content_types: vec![],
    }];
    s
}

#[test]
fn recopy_refreshes_one_row_without_retagging() {
    let mut db = temp_db();
    let settings = tagging_settings();
    let (id, fresh, first) = db
        .insert_record("hello world", &ContentType::Text, "h-recopy", false, 100, 0, "app-a", "win-a", "A", &settings, None, None)
        .unwrap();
    assert!(fresh);
    assert_eq!(first.tags, vec!["问候".to_string()]);
    db.bump_copy_count(id).unwrap();
    let (id2, fresh2, again) = db
        .insert_record("hello world", &ContentType::Text, "h-recopy", false, 100, 0, "app-b", "win-b", "B", &settings, None, Some("<b>hello</b>"))
        .unwrap();
    assert_eq!(id2, id);
    assert!(!fresh2);
    assert_eq!(again.id, id);
    assert_eq!(again.source_app, "app-b");
    assert_eq!(again.source_window, "win-b");
    assert_eq!(again.source_name, "B");
    assert_eq!(again.copy_count, 1);
    assert_eq!(again.tags, vec!["问候".to_string()]);
    assert_eq!(db.get_records_for_export(10, 0).unwrap().len(), 1);
    let full = db.get_record(id).unwrap().unwrap();
    assert_eq!(full.content_html.as_deref(), Some("<b>hello</b>"));
    assert_eq!(db.get_record_tag_names(id).unwrap(), vec!["问候".to_string()]);
}

#[test]
fn refresh_record_replaces_stamp_and_source_only() {
    let mut db = temp_db();
    let (id, _, row) = db
        .insert_record("keep me", &ContentType::Text, "h-refresh", false, 100, 0, "old-app", "old-win", "Old", &Settings::default(), None, None)
        .unwrap();
    let r = refresh_record(row.clone(), "2030-01-01T00:00:00+00:00", "new-app", "new-win", "New");
    assert_eq!(r.id, id);
    assert_eq!(r.content, row.content);
    assert_eq!(r.copy_count, row.copy_count);
    assert_eq!(r.created_at, row.created_at);
    assert_eq!(r.updated_at, "2030-01-01T00:00:00+00:00");
    assert_eq!((r.source_app.as_str(), r.source_window.as_str(), r.source_name.as_str()), ("new-app", "new-win", "New"));
}

#[test]
fn snapshot_applies_only_with_tags_and_not_older() {
    assert!(!snapshot_applies(false, "2026-02-01T00:00:00Z", None));
    assert!(snapshot_applies(true, "2026-02-01T00:00:00Z", None));
    assert!(snapshot_applies(true, "2026-02-01T00:00:00Z", Some("2026-01-01T00:00:00Z")));
    assert!(snapshot_applies(true, "2026-02-01T00:00:00Z", Some("2026-02-01T00:00:00Z")));
    assert!(!snapshot_applies(true, "2026-01-01T00:00:00Z", Some("2026-02-01T00:00:00Z")));
}

#[test]
fn failed_paste_write_counts_nothing() {
    let mut db = temp_db();
    let (id, _, _) = db
        .insert_record("paste", &ContentType::Text, "h-paste-fail", false, 100, 0, "", "", "", &Settings::default(), None, None)
        .unwrap();
    assert!(matches!(db.finish_paste(id, false), Err(PasteFailure::WriteFailed)));
    assert_eq!(db.get_record(id).unwrap().unwrap().copy_count, 0);
    assert!(db.finish_paste(id, true).is_ok());
    assert_eq!(db.get_record(id).unwrap().unwrap().copy_count, 1);
}
