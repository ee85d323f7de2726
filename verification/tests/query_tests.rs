use clipvault::query::{
    build_fts_match, build_fts_match_expr, build_list_query, clamp_page_limit, escape_like,
    id_placeholders, order_by_clause, parse_sort, push_keyset_predicate, push_short_query_predicate,
    push_tag_filter, PageCursor, SortKey, SqlParam,
};
use clipvault::sync::{build_export_page_query, ExportCursor};

#[test]
fn records_query_escape_like_escapes_wildcards() {
    assert_eq!(escape_like("100%"), "100\\%");
    assert_eq!(escape_like("a_b"), "a\\_b");
    assert_eq!(escape_like("c:\\x"), "c:\\\\x");
    assert_eq!(escape_like("plain"), "plain");
}

#[test]
fn records_query_fts_match_needs_three_chars() {
    assert_eq!(build_fts_match("ab"), None);
    assert_eq!(build_fts_match("  x "), None);
    assert_eq!(build_fts_match("abc"), Some("\"abc\"".to_string()));
}

#[test]
fn records_query_fts_match_escapes_quotes() {
    assert_eq!(build_fts_match(r#"a"b"#), Some("\"a\"\"b\"".to_string()));
}

#[test]
fn fts_match_expr_excludes_tags_when_disabled() {
    assert_eq!(
        build_fts_match_expr("abc", true),
        Some("\"abc\"".to_string())
    );
    assert_eq!(
        build_fts_match_expr("abc", false),
        Some("{content alias source_app source_window}: \"abc\"".to_string())
    );
    assert_eq!(build_fts_match_expr("ab", false), None);
}

#[test]
fn records_query_placeholders_join_count() {
    assert_eq!(id_placeholders(0), "");
    assert_eq!(id_placeholders(1), "?");
    assert_eq!(id_placeholders(3), "?,?,?");
}

#[test]
fn trash_order_has_id_tiebreak() {
    assert_eq!(
        order_by_clause(true, Some("updated_desc")),
        "updated_at DESC, id DESC"
    );
    assert_eq!(
        order_by_clause(true, Some("updated_asc")),
        "updated_at ASC, id ASC"
    );
    assert_eq!(
        order_by_clause(true, Some("copies_desc")),
        "copy_count DESC, updated_at DESC, id DESC"
    );
    assert_eq!(
        order_by_clause(false, Some("updated_desc")),
        "is_pinned DESC, updated_at DESC, id DESC"
    );
}

#[test]
fn unknown_sort_falls_back_to_updated_desc() {
    assert!(parse_sort(Some("bogus")) == SortKey::UpdatedDesc);
    assert!(parse_sort(None) == SortKey::UpdatedDesc);
    assert_eq!(
        order_by_clause(false, Some("bogus")),
        "is_pinned DESC, updated_at DESC, id DESC"
    );
}

#[test]
fn page_limit_is_clamped() {
    assert_eq!(clamp_page_limit(0), 1);
    assert_eq!(clamp_page_limit(50), 50);
    assert_eq!(clamp_page_limit(10_000), 500);
}

#[test]
fn keyset_predicate_for_updated_desc_binds_pin_stamp_and_id() {
    let mut sql = String::new();
    let mut params = Vec::new();
    let cursor = PageCursor {
        pinned: Some(1),
        updated_at: Some("2026-01-02T00:00:00Z"),
        id: Some(7),
        created_at: None,
        copy_count: None,
    };
    push_keyset_predicate(&mut sql, &mut params, false, None, cursor);
    assert!(sql.starts_with(" AND ("));
    assert_eq!(
        params,
        vec![
            SqlParam::Int(1),
            SqlParam::Int(1),
            SqlParam::Text("2026-01-02T00:00:00Z".into()),
            SqlParam::Int(1),
            SqlParam::Text("2026-01-02T00:00:00Z".into()),
            SqlParam::Int(7),
        ]
    );
}

#[test]
fn short_query_binds_the_query_once_per_column() {
    let mut sql = String::new();
    let mut params = Vec::new();
    push_short_query_predicate(&mut sql, &mut params, "ab", true, true);
    assert_eq!(params.len(), 5);
    assert!(sql.starts_with("instr(content, ?) > 0 OR "));
    let mut sql2 = String::new();
    let mut params2 = Vec::new();
    push_short_query_predicate(&mut sql2, &mut params2, "a", false, false);
    assert_eq!(params2.len(), 3);
}

#[test]
fn tag_filter_applies_only_with_tags_enabled() {
    let mut sql = String::new();
    let mut params = Vec::new();
    push_tag_filter(&mut sql, &mut params, Some("work"), false);
    assert!(sql.is_empty());
    push_tag_filter(&mut sql, &mut params, Some(""), true);
    assert!(sql.is_empty());
    push_tag_filter(&mut sql, &mut params, Some("work"), true);
    assert_eq!(params, vec![SqlParam::Text("work".into())]);
}

#[test]
fn list_query_uses_offset_until_the_cursor_is_ready() {
    let (sql, params) = build_list_query(
        20,
        40,
        false,
        Some("text"),
        true,
        None,
        None,
        PageCursor::default(),
        false,
    );
    assert!(sql.ends_with(" ORDER BY is_pinned DESC, updated_at DESC, id DESC LIMIT ? OFFSET ?"));
    assert!(sql.contains(" AND content_type = ?"));
    assert!(sql.contains(" AND is_favorite = 1"));
    assert_eq!(
        params,
        vec![
            SqlParam::Int(0),
            SqlParam::Text("text".into()),
            SqlParam::Int(20),
            SqlParam::Int(40),
        ]
    );
}

#[test]
fn export_page_query_binds_cursor_then_limit() {
    let (sql, params) = build_export_page_query(0, None);
    assert!(sql.ends_with(" ORDER BY is_pinned DESC, updated_at DESC, id DESC LIMIT ?"));
    assert_eq!(params, vec![SqlParam::Int(1)]);
    let c = ExportCursor {
        is_pinned: true,
        updated_at: "t".into(),
        id: 9,
    };
    let (sql2, params2) = build_export_page_query(10, Some(&c));
    assert!(sql2.contains("(is_pinned < ? OR"));
    assert_eq!(
        params2,
        vec![
            SqlParam::Int(1),
            SqlParam::Int(1),
            SqlParam::Text("t".into()),
            SqlParam::Text("t".into()),
            SqlParam::Int(9),
            SqlParam::Int(10),
        ]
    );
}

#[test]
fn request_page_limit_defaults_and_clamps() {
    assert_eq!(clipvault::query::request_page_limit(None), 60);
    assert_eq!(clipvault::query::request_page_limit(Some(0)), 1);
    assert_eq!(clipvault::query::request_page_limit(Some(150)), 150);
    assert_eq!(clipvault::query::request_page_limit(Some(5000)), 200);
}

#[test]
fn cap_ids_keeps_the_first_thousand() {
    let few = vec![3, 1, 2];
    assert_eq!(clipvault::query::cap_ids(few.clone()), few);
    let many: Vec<i64> = (0..1500).collect();
    let capped = clipvault::query::cap_ids(many);
    assert_eq!(capped.len(), 1000);
    assert_eq!(capped[999], 999);
}
