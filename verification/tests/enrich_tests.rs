use clipvault::ai::{prepare_on_demand, sanitize_result, AiEnrichMode, AiResult, ALIAS_MAX_CHARS};
use clipvault::content::{sha256_hash, ContentType};
use clipvault::db::ClipboardDb;
use clipvault::enrich::{ai_job_allowed, brace_span, extract_json_object};
use clipvault::record::{ClipboardRecord, FeatureFlags, Settings};

fn ready_settings() -> Settings {
    Settings {
        features: FeatureFlags {
            ai: true,
            tags: true,
            batch: true,
        },
        enable_ai: true,
        ai_base_url: "https://api.example.com/v1".into(),
        ai_api_key: String::new(),
        ai_model: "m".into(),
        ai_summary_alias: true,
        ai_auto_tag: true,
        ai_max_chars: 2000,
        ai_min_chars: 0,
        language: "zh".into(),
        enable_sensitive_detection: true,
        sensitive_auto_expire_seconds: 0,
        theme: "system".into(),
        enable_blur: true,
        blur_strength: 20,
        enable_animation: true,
        panel_opacity: 100,
        max_records: 1000,
        retention_days: 0,
        enable_auto_tag: true,
        auto_tag_rules: Vec::new(),
        ignored_apps: Vec::new(),
        webdav_device_id: String::new(),
    }
}

fn sample(content_type: &str) -> ClipboardRecord {
    ClipboardRecord {
        id: 1,
        content: "hello world this is clipboard text".into(),
        content_type: content_type.into(),
        source_app: "app.exe".into(),
        source_window: "win".into(),
        source_name: String::new(),
        source_device_id: String::new(),
        hash: "h".into(),
        copy_count: 0,
        is_favorite: false,
        is_pinned: false,
        is_sensitive: false,
        is_trashed: false,
        auto_expire_at: None,
        created_at: "2026-01-01T00:00:00Z".into(),
        updated_at: "2026-01-01T00:00:00Z".into(),
        tags: vec![],
        tag_colors: Vec::new(),
        content_html: None,
        media_path: None,
        thumb_path: None,
        width: None,
        height: None,
        media_abs: None,
        thumb_abs: None,
        content_len: None,
        alias: String::new(),
    }
}

fn temp_db() -> ClipboardDb {
    ClipboardDb::open_in_memory("C:\\media").unwrap()
}

fn insert(db: &mut ClipboardDb, content: &str, sensitive: bool) -> i64 {
    let hash = sha256_hash(&sha256_hash(content));
    db.insert_record(
        content,
        &ContentType::Text,
        &hash,
        sensitive,
        1000,
        600,
        "app.exe",
        "win",
        "",
        &Settings::default(),
        None,
        None)
    .unwrap()
    .0
}

/// Decode the model's JSON object into an `AiResult`, as the caller does.
fn decode_ai_result(text: &str) -> AiResult {
    let v: serde_json::Value = serde_json::from_str(text).unwrap();
    let summary = v
        .get("summary")
        .and_then(|s| s.as_str())
        .unwrap_or_default()
        .to_string();
    let tags = v
        .get("tags")
        .and_then(|t| t.as_array())
        .map(|a| {
            a.iter()
                .filter_map(|x| x.as_str().map(|s| s.to_string()))
                .collect()
        })
        .unwrap_or_default();
    AiResult { summary, tags }
}

#[test]
fn parses_fenced_json_and_caps_result() {
    let text = "```json\n{\"summary\":\" 一个很长的摘要...\",\"tags\":[\"a\",\"b\",\"b\",\"  c  \",\"\",\"标签标签标签标签标签标签标签标签标签标签标签标签\"]}\n```";
    let obj = extract_json_object(text).unwrap();
    let parsed = decode_ai_result(&obj);
    let out = sanitize_result(parsed);
    assert_eq!(
        out.tags,
        vec!["a".to_string(), "b".to_string(), "c".to_string()]
    );
    assert!(out.summary.chars().count() <= ALIAS_MAX_CHARS);
}

#[test]
fn empty_content_yields_no_tags() {
    let text = "{\"summary\":\"\",\"tags\":[]}";
    let out = sanitize_result(decode_ai_result(text));
    assert!(out.summary.is_empty());
    assert!(out.tags.is_empty());
}

#[test]
fn extract_prefers_the_whole_reply_and_falls_back_to_the_braces() {
    assert_eq!(
        extract_json_object("  {\"a\":1}  ").as_deref(),
        Some("{\"a\":1}")
    );
    assert_eq!(
        extract_json_object("Sure! {\"a\": [1, 2]} hope this helps").as_deref(),
        Some("{\"a\": [1, 2]}")
    );
    // A bare JSON array is no object, and has no braces.
    assert_eq!(extract_json_object("[1, 2]"), None);
    // Braces around text that is not JSON.
    assert_eq!(extract_json_object("{not json}"), None);
    // Closing brace before the opening one.
    assert_eq!(extract_json_object("} then {"), None);
    assert_eq!(extract_json_object("no object here"), None);
}

#[test]
fn brace_span_runs_from_first_open_to_last_close() {
    assert_eq!(brace_span("x{a}{b}y").as_deref(), Some("{a}{b}"));
    assert_eq!(brace_span("{}").as_deref(), Some("{}"));
    assert_eq!(brace_span("}{"), None);
    assert_eq!(brace_span("{"), None);
    assert_eq!(brace_span("plain"), None);
}

#[test]
fn prepare_rejects_sensitive_image_and_trashed() {
    let s = ready_settings();
    let mut rec = sample("text");
    rec.is_sensitive = true;
    assert!(prepare_on_demand(&s, &rec, AiEnrichMode::Summary)
        .unwrap_err()
        .contains("敏感"));

    rec.is_sensitive = false;
    rec.content_type = "image".into();
    assert!(prepare_on_demand(&s, &rec, AiEnrichMode::Summary)
        .unwrap_err()
        .contains("类型"));

    rec.content_type = "text".into();
    rec.is_trashed = true;
    assert!(prepare_on_demand(&s, &rec, AiEnrichMode::Summary)
        .unwrap_err()
        .contains("回收站"));
}

#[test]
fn prepare_ignores_min_chars_and_truncates_to_max() {
    let mut s = ready_settings();
    s.ai_min_chars = 500;
    s.ai_max_chars = 80;
    let mut rec = sample("text");
    rec.content = "短".into();
    assert!(prepare_on_demand(&s, &rec, AiEnrichMode::Summary).is_ok());

    rec.content = "字".repeat(200);
    let (capped, _) = prepare_on_demand(&s, &rec, AiEnrichMode::Summary).unwrap();
    assert_eq!(capped.chars().count(), 80);
}

#[test]
fn apply_summary_overwrites_existing_alias() {
    let mut db = temp_db();
    let id = insert(&mut db, "payload for summary", false);
    db.set_record_alias(id, "old alias").unwrap();
    let out = db
        .apply_on_demand(
            id,
            &AiResult {
                summary: "  new title  ".into(),
                tags: vec![],
            },
            AiEnrichMode::Summary,
        )
        .unwrap();
    assert_eq!(out.alias.as_deref(), Some("new title"));
    let rec = db.get_record(id).unwrap().unwrap();
    assert_eq!(rec.alias, "new title");
}

#[test]
fn apply_empty_summary_does_not_clear_alias() {
    let mut db = temp_db();
    let id = insert(&mut db, "payload keep alias", false);
    db.set_record_alias(id, "keep me").unwrap();
    let err = db
        .apply_on_demand(
            id,
            &AiResult {
                summary: "   ".into(),
                tags: vec!["x".into()],
            },
            AiEnrichMode::Summary,
        )
        .unwrap_err();
    assert!(err.contains("未生成摘要"));
    let rec = db.get_record(id).unwrap().unwrap();
    assert_eq!(rec.alias, "keep me");
}

#[test]
fn apply_tags_is_additive_and_errors_when_nothing_new() {
    let mut db = temp_db();
    let id = insert(&mut db, "payload for tags", false);
    let first = db
        .apply_on_demand(
            id,
            &AiResult {
                summary: String::new(),
                tags: vec!["前端".into(), "Vue".into()],
            },
            AiEnrichMode::Tags,
        )
        .unwrap();
    let tags = first.tags.unwrap();
    assert!(tags.iter().any(|t| t == "前端"));
    assert!(tags.iter().any(|t| t == "Vue"));

    let err = db
        .apply_on_demand(
            id,
            &AiResult {
                summary: String::new(),
                tags: vec!["前端".into(), "Vue".into()],
            },
            AiEnrichMode::Tags,
        )
        .unwrap_err();
    assert!(err.contains("没有可添加的标签"));

    let second = db
        .apply_on_demand(
            id,
            &AiResult {
                summary: String::new(),
                tags: vec!["前端".into(), "部署".into()],
            },
            AiEnrichMode::Tags,
        )
        .unwrap();
    let tags = second.tags.unwrap();
    assert!(tags.iter().any(|t| t == "前端"));
    assert!(tags.iter().any(|t| t == "Vue"));
    assert!(tags.iter().any(|t| t == "部署"));
}

#[test]
fn apply_tags_with_only_blank_names_is_an_error() {
    let mut db = temp_db();
    let id = insert(&mut db, "payload blank tags", false);
    let err = db
        .apply_on_demand(
            id,
            &AiResult {
                summary: String::new(),
                tags: vec!["  ".into(), String::new()],
            },
            AiEnrichMode::Tags,
        )
        .unwrap_err();
    assert_eq!(err, "没有可添加的标签");
}

#[test]
fn add_auto_tags_by_name_merges_and_is_idempotent() {
    let mut db = temp_db();
    let id = insert(&mut db, "ai-tag content", false);
    let manual = db.create_tag("manual-keep", "#ef4444").unwrap();
    db.add_tag_to_record(id, manual).unwrap();

    let names = |s: &[&str]| s.iter().map(|x| x.to_string()).collect::<Vec<_>>();
    let added = db
        .add_auto_tags_by_name(id, &names(&["  AI-go   ", "ai-go", "", "代码", "代码"]))
        .unwrap();
    assert_eq!(added, 3, "distinct non-empty trimmed names count");

    let tags = db.get_record_tag_names(id).unwrap();
    assert!(tags.contains(&"manual-keep".to_string()), "manual kept");
    assert!(tags.contains(&"AI-go".to_string()));
    assert!(tags.contains(&"ai-go".to_string()));
    assert!(tags.contains(&"代码".to_string()));

    let is_auto: i64 = db
        .connection()
        .query_row("SELECT is_auto FROM tags WHERE name = '代码'", [], |r| r.get(0))
        .unwrap();
    assert_eq!(is_auto, 1, "AI tags must be created as auto tags");

    let again = db
        .add_auto_tags_by_name(id, &names(&["AI-go", "代码"]))
        .unwrap();
    assert_eq!(again, 0);
}

#[test]
fn background_result_sets_alias_only_when_empty() {
    let mut db = temp_db();
    let id = insert(&mut db, "background payload", false);
    let s = ready_settings();
    let config = clipvault::ai::AiConfig::from_settings(&s);
    let result = AiResult {
        summary: "A title".into(),
        tags: vec!["t1".into()],
    };
    assert!(db.apply_ai_result(id, &config, &result));
    assert_eq!(db.get_record(id).unwrap().unwrap().alias, "A title");

    // A second reply neither overwrites the alias nor re-adds the tag.
    let other = AiResult {
        summary: "Other".into(),
        tags: vec!["t1".into()],
    };
    assert!(!db.apply_ai_result(id, &config, &other));
    assert_eq!(db.get_record(id).unwrap().unwrap().alias, "A title");
}

#[test]
fn ai_job_gate_needs_ai_on_and_a_plain_active_record() {
    let s = ready_settings();
    let rec = sample("text");
    assert!(ai_job_allowed(&s, Some(&rec)));
    assert!(!ai_job_allowed(&s, None));
    let mut sensitive = sample("text");
    sensitive.is_sensitive = true;
    assert!(!ai_job_allowed(&s, Some(&sensitive)));
    let mut trashed = sample("text");
    trashed.is_trashed = true;
    assert!(!ai_job_allowed(&s, Some(&trashed)));
    let mut off = ready_settings();
    off.enable_ai = false;
    assert!(!ai_job_allowed(&off, Some(&rec)));
}

#[test]
fn fresh_plain_text_long_enough_goes_to_the_model() {
    let mut s = ready_settings();
    s.ai_min_chars = 10;
    let mut rec = sample("text");
    rec.content_len = Some(34);
    assert!(clipvault::enrich::should_enqueue_ai(&s, &rec, true));
    // A dedup refresh is never enriched again.
    assert!(!clipvault::enrich::should_enqueue_ai(&s, &rec, false));
    // Too short, sensitive, or an image: no.
    rec.content_len = Some(5);
    assert!(!clipvault::enrich::should_enqueue_ai(&s, &rec, true));
    rec.content_len = Some(34);
    rec.is_sensitive = true;
    assert!(!clipvault::enrich::should_enqueue_ai(&s, &rec, true));
    rec.is_sensitive = false;
    rec.content_type = "image".into();
    assert!(!clipvault::enrich::should_enqueue_ai(&s, &rec, true));
    // Neither summary nor tags asked for.
    let mut quiet = ready_settings();
    quiet.ai_summary_alias = false;
    quiet.ai_auto_tag = false;
    let mut long = sample("text");
    long.content_len = Some(34);
    assert!(!clipvault::enrich::should_enqueue_ai(&quiet, &long, true));
}
