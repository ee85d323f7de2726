use clipvault::bundle::{merged_update_params, MERGED_UPDATE_SQL};
use clipvault::capture::exceeds_capacity;
use clipvault::content::ContentType;
use clipvault::lifecycle::returned_flag;
use clipvault::query::{push_keyset_predicate, PageCursor, SqlParam};
use clipvault::record::Settings;
use clipvault::sqlite::DbError;
use clipvault::sync::MergeFields;

fn collapse(s: &str) -> String {
    s.split_whitespace().collect::<Vec<_>>().join(" ")
}

#[test]
fn keyset_predicate_text_for_updated_asc() {
    let mut sql = String::new();
    let mut params = Vec::new();
    let cursor = PageCursor {
        pinned: Some(0),
        updated_at: Some("2026-01-02T00:00:00Z"),
        id: Some(2),
        created_at: None,
        copy_count: None,
    };
    push_keyset_predicate(&mut sql, &mut params, false, Some("updated_asc"), cursor);
    assert_eq!(
        format!(" {}", collapse(&sql)),
        " AND ( is_pinned < ? OR (is_pinned = ? AND updated_at > ?) OR (is_pinned = ? AND updated_at = ? AND id > ?) )"
    );
    assert_eq!(
        params,
        vec![
            SqlParam::Int(0),
            SqlParam::Int(0),
            SqlParam::Text("2026-01-02T00:00:00Z".into()),
            SqlParam::Int(0),
            SqlParam::Text("2026-01-02T00:00:00Z".into()),
            SqlParam::Int(2),
        ]
    );
}

#[test]
fn keyset_predicate_text_for_trash() {
    let mut sql = String::new();
    let mut params = Vec::new();
    let cursor = PageCursor {
        pinned: None,
        updated_at: Some("2026-01-02T00:00:00Z"),
        id: Some(5),
        created_at: None,
        copy_count: None,
    };
    push_keyset_predicate(&mut sql, &mut params, true, None, cursor);
    assert_eq!(sql, " AND (updated_at < ? OR (updated_at = ? AND id < ?))");
    assert_eq!(params.len(), 3);
}

#[test]
fn returned_flag_reads_one_as_set() {
    assert_eq!(returned_flag(Some(1)).unwrap(), true);
    assert_eq!(returned_flag(Some(0)).unwrap(), false);
    assert!(matches!(returned_flag(None), Err(DbError::NoRows)));
}

#[test]
fn capacity_allows_at_least_one_row() {
    assert!(!exceeds_capacity(1, 0));
    assert!(exceeds_capacity(2, 0));
    assert!(!exceeds_capacity(100, 100));
    assert!(exceeds_capacity(101, 100));
}

#[test]
fn merged_update_binds_fields_then_id() {
    let m = MergeFields {
        is_favorite: true,
        is_pinned: false,
        copy_count: 3,
        updated_at: "2026-01-01T00:00:00Z".into(),
        media_path: None,
        thumb_path: Some("t.png".into()),
        is_sensitive: false,
        auto_expire_at: None,
        source_device_id: "dev".into(),
        created_at: "2025-01-01T00:00:00Z".into(),
    };
    let p = merged_update_params(9, &m);
    assert_eq!(
        p,
        vec![
            SqlParam::Int(1),
            SqlParam::Int(0),
            SqlParam::Int(3),
            SqlParam::Text("2026-01-01T00:00:00Z".into()),
            SqlParam::Null,
            SqlParam::Text("t.png".into()),
            SqlParam::Int(0),
            SqlParam::Null,
            SqlParam::Text("dev".into()),
            SqlParam::Int(9),
        ]
    );
    assert_eq!(MERGED_UPDATE_SQL.matches('?').count(), 10);
}

#[test]
fn default_settings_tag_links() {
    let s = Settings::default();
    assert!(s.features.tags && s.enable_auto_tag);
    assert_eq!(s.auto_tag_rules[0].tag_name, "链接");
    assert!(matches!(s.auto_tag_rules[0].content_types[0], ContentType::Link));
    assert_eq!(s.max_records, 1000);
}
