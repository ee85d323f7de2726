use clipvault::db::ClipboardDb;
use clipvault::history::{history_limit, SyncCounts, HISTORY_STORE_MAX};

fn temp_db() -> ClipboardDb {
    ClipboardDb::open_in_memory("C:\\media").unwrap()
}

#[test]
fn record_moves_existing_to_front_and_bumps_count() {
    let mut db = temp_db();
    db.record_search_history("alpha").unwrap();
    db.record_search_history("beta").unwrap();
    db.record_search_history("gamma").unwrap();

    let before = db.get_search_history(50).unwrap();
    assert_eq!(
        before.iter().map(|e| e.query.as_str()).collect::<Vec<_>>(),
        ["gamma", "beta", "alpha"]
    );

    db.record_search_history("alpha").unwrap();
    let after = db.get_search_history(50).unwrap();
    assert_eq!(after[0].query, "alpha");
    assert_eq!(after[0].search_count, 2);
    assert_eq!(after.len(), 3);
}

#[test]
fn blank_query_is_ignored() {
    let mut db = temp_db();
    db.record_search_history("  ").unwrap();
    assert!(db.get_search_history(50).unwrap().is_empty());
}

#[test]
fn search_history_store_is_trimmed_to_cap() {
    let mut db = temp_db();
    for i in 0..60 {
        db.record_search_history(&format!("query-{i}")).unwrap();
    }
    let rows = db.get_search_history(200).unwrap();
    assert_eq!(rows.len(), 50);
    assert_eq!(rows[0].query, "query-59");
    assert!(!rows.iter().any(|e| e.query == "query-9"));
}

#[test]
fn remove_and_clear_work() {
    let mut db = temp_db();
    db.record_search_history("alpha").unwrap();
    db.record_search_history("beta").unwrap();

    db.remove_search_history("alpha").unwrap();
    let rows = db.get_search_history(50).unwrap();
    assert_eq!(
        rows.iter().map(|e| e.query.as_str()).collect::<Vec<_>>(),
        ["beta"]
    );

    db.clear_search_history().unwrap();
    assert!(db.get_search_history(50).unwrap().is_empty());
}

#[test]
fn insert_and_query_round_trip() {
    let mut db = temp_db();
    db.insert_sync_history("pull", true, 3, 0, 1, 2, 0, 1, 0, 0, None)
        .unwrap();
    db.insert_sync_history("push", false, 0, 5, 0, 0, 4, 0, 2, 1, Some("401 Unauthorized"))
        .unwrap();
    let rows = db.get_sync_history(10).unwrap();
    assert_eq!(rows.len(), 2);
    assert_eq!(rows[0].action, "push");
    assert!(!rows[0].success);
    assert_eq!(rows[0].pushed, 5);
    assert_eq!(rows[0].tags_pushed, 4);
    assert_eq!(rows[0].error.as_deref(), Some("401 Unauthorized"));
    assert_eq!(rows[1].action, "pull");
    assert!(rows[1].success);
    assert_eq!(rows[1].tags_pulled, 2);
}

#[test]
fn sync_history_store_is_trimmed_to_cap() {
    let mut db = temp_db();
    for i in 0..60 {
        db.insert_sync_history("sync", true, i, 0, 0, 0, 0, 0, 0, 0, None)
            .unwrap();
    }
    let rows = db.get_sync_history(200).unwrap();
    assert_eq!(rows.len(), 50);
    assert_eq!(rows[0].pulled, 59);
    assert!(!rows.iter().any(|e| e.pulled == 9));
}

#[test]
fn clear_empties_log() {
    let mut db = temp_db();
    db.insert_sync_history("sync", true, 1, 0, 0, 0, 0, 0, 0, 0, None)
        .unwrap();
    db.clear_sync_history().unwrap();
    assert!(db.get_sync_history(10).unwrap().is_empty());
}

#[test]
fn log_helpers_record_success_and_failure() {
    let mut db = temp_db();
    let counts = SyncCounts {
        pulled: 1,
        pushed: 2,
        merged: 3,
        tags_pulled: 4,
        tags_pushed: 5,
        media_downloaded: 6,
        media_uploaded: 7,
        media_skipped: 8,
    };
    db.log_sync_ok("sync", &counts);
    db.log_sync_err("push", "timeout");
    let rows = db.get_sync_history(10).unwrap();
    assert_eq!(rows.len(), 2);
    assert_eq!(rows[0].action, "push");
    assert_eq!(rows[0].error.as_deref(), Some("timeout"));
    assert!(!rows[0].success);
    assert!(rows[1].success);
    assert_eq!(rows[1].media_skipped, 8);
    assert_eq!(rows[1].merged, 3);
}

#[test]
fn history_limit_clamps_into_range() {
    assert_eq!(history_limit(-5), 0);
    assert_eq!(history_limit(20), 20);
    assert_eq!(history_limit(10_000), 500);
    assert_eq!(HISTORY_STORE_MAX, 50);
}
