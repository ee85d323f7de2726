use clipvault::history::{search_history_rows, sync_history_rows};
use clipvault::rehash::{group_by_hash, LegacyHashRow};
use clipvault::sqlite::SqlCell;
use clipvault::tagdb::tag_info_rows;
use clipvault::tombstones::tombstone_rows;

fn t(s: &str) -> SqlCell {
    SqlCell::Text(s.to_string())
}

#[test]
fn search_rows_decode_in_order() {
    let rows = vec![
        vec![t("rust"), SqlCell::Int(3), t("2024-01-02T00:00:00Z")],
        vec![t("verus"), SqlCell::Int(1), t("2024-01-01T00:00:00Z")],
    ];
    let v = search_history_rows(&rows).unwrap();
    assert_eq!(v.len(), 2);
    assert_eq!(v[0].query, "rust");
    assert_eq!(v[0].search_count, 3);
    assert_eq!(v[1].last_searched_at, "2024-01-01T00:00:00Z");
}

#[test]
fn search_rows_reject_wrong_type() {
    let rows = vec![vec![t("rust"), t("three"), t("2024-01-02T00:00:00Z")]];
    assert!(search_history_rows(&rows).is_none());
    let short = vec![vec![t("rust"), SqlCell::Int(3)]];
    assert!(search_history_rows(&short).is_none());
}

#[test]
fn sync_rows_decode_counters_and_error() {
    let mut row = vec![SqlCell::Int(7), t("2024-05-01T10:00:00Z"), t("push"), SqlCell::Int(1)];
    for n in 1..=8 {
        row.push(SqlCell::Int(n));
    }
    row.push(SqlCell::Null);
    let v = sync_history_rows(&vec![row.clone()]).unwrap();
    assert_eq!(v[0].id, 7);
    assert!(v[0].success);
    assert_eq!(v[0].pulled, 1);
    assert_eq!(v[0].media_skipped, 8);
    assert_eq!(v[0].error, None);
    let mut bad = row;
    bad[4] = SqlCell::Int(i64::from(i32::MAX) + 1);
    assert!(sync_history_rows(&vec![bad]).is_none());
}

#[test]
fn tag_info_and_tombstone_rows_decode() {
    let tags = vec![vec![SqlCell::Int(2), t("work"), t("#ff0000"), SqlCell::Int(0), SqlCell::Int(5)]];
    let v = tag_info_rows(&tags).unwrap();
    assert_eq!(v[0].name, "work");
    assert_eq!(v[0].count, 5);
    assert!(!v[0].is_auto);
    let tombs = vec![vec![t("abc"), t("2024-01-01T00:00:00Z"), SqlCell::Int(1)]];
    let w = tombstone_rows(&tombs).unwrap();
    assert_eq!(w[0].0, "abc");
    assert!(w[0].2);
    assert!(tombstone_rows(&vec![vec![t("abc"), SqlCell::Null, SqlCell::Int(1)]]).is_none());
}

fn legacy(id: i64) -> LegacyHashRow {
    LegacyHashRow {
        id,
        is_favorite: false,
        is_pinned: false,
        copy_count: 0,
        alias: String::new(),
        is_trashed: false,
        updated_at: "2024-01-01T00:00:00Z".to_string(),
    }
}

#[test]
fn group_by_hash_groups_in_first_appearance_order() {
    let rows = vec![
        ("h1".to_string(), legacy(1)),
        ("h2".to_string(), legacy(2)),
        ("h1".to_string(), legacy(3)),
    ];
    let g = group_by_hash(rows);
    assert_eq!(g.len(), 2);
    assert_eq!(g[0].0, "h1");
    assert_eq!(g[0].1.iter().map(|r| r.id).collect::<Vec<_>>(), vec![1, 3]);
    assert_eq!(g[1].0, "h2");
    assert_eq!(g[1].1.len(), 1);
}
