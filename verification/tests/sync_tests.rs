use clipvault::security::{
    detect_sensitive, is_allowed_media_rel, is_openable_link, is_safe_import_html,
    normalize_content_type,
};
use clipvault::sync::{
    advance_ack, fold_ack, fold_tombstone, merge_import_fields, tombstone_action, ImportLimit,
    MergeFields, TombstoneAction,
};
use clipvault::tagsync::{
    gc_candidate, incoming_tag_action, tombstone_deletes, IncomingTagAction, LocalTag, TagSyncRow,
};

fn fields(updated: &str, created: &str, device: &str) -> MergeFields {
    MergeFields {
        is_favorite: false,
        is_pinned: false,
        copy_count: 0,
        updated_at: updated.into(),
        media_path: None,
        thumb_path: None,
        is_sensitive: false,
        auto_expire_at: None,
        source_device_id: device.into(),
        created_at: created.into(),
    }
}

#[test]
fn merge_takes_newer_stamp_and_larger_count() {
    let mut local = fields("2026-01-02", "2026-01-01", "");
    local.copy_count = 3;
    let mut inc = fields("2026-01-05", "2026-01-01", "");
    inc.copy_count = 2;
    inc.is_favorite = true;
    let m = merge_import_fields(&local, &inc);
    assert_eq!(m.updated_at, "2026-01-05");
    assert_eq!(m.copy_count, 3);
    assert!(m.is_favorite);
}

#[test]
fn merge_is_idempotent_on_concrete_values() {
    let mut local = fields("2026-01-02", "2026-03-01", "dev-a");
    local.media_path = Some(String::new());
    let mut inc = fields("2026-01-01", "2026-01-01", "dev-b");
    inc.media_path = Some("media/x.png".into());
    inc.is_sensitive = true;
    inc.auto_expire_at = Some("2026-09-01".into());
    let once = merge_import_fields(&local, &inc);
    let twice = merge_import_fields(&once, &inc);
    assert_eq!(once.media_path.as_deref(), Some("media/x.png"));
    assert_eq!(once.source_device_id, "dev-b");
    assert_eq!(once.auto_expire_at.as_deref(), Some("2026-09-01"));
    assert_eq!(twice.media_path, once.media_path);
    assert_eq!(twice.source_device_id, once.source_device_id);
    assert_eq!(twice.auto_expire_at, once.auto_expire_at);
    assert_eq!(twice.updated_at, once.updated_at);
}

#[test]
fn merge_keeps_filled_media_and_known_later_origin() {
    let mut local = fields("2026-01-02", "2026-01-01", "dev-a");
    local.media_path = Some("media/old.png".into());
    let mut inc = fields("2026-01-03", "2026-02-01", "dev-b");
    inc.media_path = Some("media/new.png".into());
    let m = merge_import_fields(&local, &inc);
    assert_eq!(m.media_path.as_deref(), Some("media/old.png"));
    assert_eq!(m.source_device_id, "dev-a");
}

#[test]
fn tombstone_newer_wins() {
    assert!(tombstone_action(Some("2026-01-01"), "2026-02-01") == TombstoneAction::Trash);
    assert!(tombstone_action(Some("2026-02-01"), "2026-02-01") == TombstoneAction::KeepNewer);
    assert!(tombstone_action(Some("2026-03-01"), "2026-02-01") == TombstoneAction::KeepNewer);
    assert!(tombstone_action(None, "2026-02-01") == TombstoneAction::Remember);
}

#[test]
fn ack_advances_to_the_newest_deletion() {
    assert_eq!(advance_ack(None, "b"), "b");
    assert_eq!(advance_ack(Some("c".into()), "b"), "c");
    assert_eq!(advance_ack(Some("a".into()), "b"), "b");
    let stones = vec![
        ("h1".to_string(), "2026-01-03".to_string()),
        ("h2".to_string(), "2026-01-01".to_string()),
        ("h3".to_string(), "2026-01-02".to_string()),
    ];
    assert_eq!(fold_ack(None, &stones).as_deref(), Some("2026-01-03"));
    assert_eq!(
        fold_ack(Some("2026-05-01".into()), &stones).as_deref(),
        Some("2026-05-01")
    );
    assert_eq!(fold_ack(Some("x".into()), &[]).as_deref(), Some("x"));
}

#[test]
fn tombstone_fold_keeps_latest_and_sticky_sensitivity() {
    assert_eq!(fold_tombstone(None, "b", false), ("b".to_string(), false));
    assert_eq!(
        fold_tombstone(Some(("c".into(), true)), "b", false),
        ("c".to_string(), true)
    );
    assert_eq!(
        fold_tombstone(Some(("a".into(), false)), "b", true),
        ("b".to_string(), true)
    );
}

fn local_tag(name: &str, color: &str, updated: &str) -> LocalTag {
    LocalTag {
        id: 1,
        name: name.into(),
        color: color.into(),
        is_auto: false,
        updated_at: updated.into(),
    }
}

fn row(name: &str, color: &str, updated: &str) -> TagSyncRow {
    TagSyncRow {
        name: name.into(),
        color: color.into(),
        is_auto: false,
        updated_at: updated.into(),
    }
}

#[test]
fn tag_lww_and_tombstone_gate() {
    let l = local_tag("work", "#ef4444", "2026-01-02");
    assert!(incoming_tag_action(Some(&l), &row("work", "#22c55e", "2026-01-01"), None) == IncomingTagAction::Skip);
    assert!(
        incoming_tag_action(Some(&l), &row("work", "#22c55e", "2026-01-03"), None)
            == IncomingTagAction::Update { changed: true }
    );
    assert!(
        incoming_tag_action(Some(&l), &row("work", "#ef4444", "2026-01-03"), None)
            == IncomingTagAction::Update { changed: false }
    );
    assert!(incoming_tag_action(None, &row("new", "#fff", "2026-01-03"), Some("2026-01-03")) == IncomingTagAction::Skip);
    assert!(incoming_tag_action(None, &row("new", "#fff", "2026-01-03"), Some("2026-01-02")) == IncomingTagAction::Insert);
    assert!(incoming_tag_action(None, &row("new", "#fff", "2026-01-03"), None) == IncomingTagAction::Insert);
}

#[test]
fn tag_tombstone_and_gc_rules() {
    assert!(tombstone_deletes("2026-01-01", "2026-01-01"));
    assert!(!tombstone_deletes("2026-01-02", "2026-01-01"));
    let rows = vec![row("kept", "#fff", "2026-01-01")];
    assert!(gc_candidate(&local_tag("old", "#fff", "2026-01-01"), &rows, "2026-02-01"));
    assert!(!gc_candidate(&local_tag("kept", "#fff", "2026-01-01"), &rows, "2026-02-01"));
    assert!(!gc_candidate(&local_tag("old", "#fff", "1970-01-01T00:00:00Z"), &rows, "2026-02-01"));
    assert!(!gc_candidate(&local_tag("old", "#fff", "2026-03-01"), &rows, "2026-02-01"));
}

#[test]
fn import_limit_messages() {
    assert_eq!(ImportLimit::TooManyRecords.message(), "导入记录过多（上限 100000 条）");
    assert_eq!(ImportLimit::HtmlTooLarge.message(), "记录 HTML 过大（单条上限 512 KB）");
    assert_eq!(ImportLimit::TotalTooLarge.message(), "导入内容过大（总上限 64 MB）");
}

#[test]
fn boundary_checks_for_untrusted_bundles() {
    assert_eq!(normalize_content_type("link"), "link");
    assert_eq!(normalize_content_type("weird"), "text");
    assert!(is_openable_link("  HTTPS://example.com/a  "));
    assert!(!is_openable_link("https://example.com/a b"));
    assert!(!is_openable_link("javascript:alert(1)"));
    assert!(is_allowed_media_rel("images/a.png"));
    assert!(!is_allowed_media_rel("/etc/passwd"));
    assert!(!is_allowed_media_rel("C:\\x.png"));
    assert!(!is_allowed_media_rel("a/../../b.png"));
    assert!(!is_allowed_media_rel(""));
    assert!(is_safe_import_html("<b>bold</b>"));
    assert!(!is_safe_import_html("<SCRIPT>x</SCRIPT>"));
    assert!(detect_sensitive("My Password is hunter2"));
    assert!(!detect_sensitive("plain text"));
}

#[test]
fn import_payload_size_gate() {
    let cap = clipvault::sync::MAX_IMPORT_TOTAL_BYTES;
    assert_eq!(clipvault::sync::check_import_payload(cap, false), Ok(()));
    assert_eq!(
        clipvault::sync::check_import_payload(cap + 1, false),
        Err("导入内容过大（上限 64MB）".to_string())
    );
    assert_eq!(
        clipvault::sync::check_import_payload(cap + 1, true),
        Err("备份文件过大（上限 64MB）".to_string())
    );
}
