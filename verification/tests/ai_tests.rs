use clipvault::ai::{
    ai_eligible_type, build_system_prompt, capped_content, is_loopback_host, prepare_on_demand,
    sanitize_result, validate_ai_endpoint, endpoint_from_parse, AiConfig, AiEnrichMode, AiResult,
};
use clipvault::record::{ClipboardRecord, FeatureFlags, Settings};

fn base_settings() -> Settings {
    Settings {
        features: FeatureFlags {
            ai: true,
            tags: true,
            batch: true,
        },
        enable_ai: false,
        ai_base_url: String::new(),
        ai_api_key: String::new(),
        ai_model: String::new(),
        ai_summary_alias: true,
        ai_auto_tag: true,
        ai_max_chars: 2000,
        ai_min_chars: 0,
        language: "zh".into(),
        enable_sensitive_detection: true,
        sensitive_auto_expire_seconds: 0,
        theme: "system".into(),
        enable_blur: true,
        blur_strength: 20,
        enable_animation: true,
        panel_opacity: 100,
        max_records: 1000,
        retention_days: 0,
        enable_auto_tag: true,
        auto_tag_rules: Vec::new(),
        ignored_apps: Vec::new(),
        webdav_device_id: String::new(),
    }
}

fn record(content: &str) -> ClipboardRecord {
    ClipboardRecord {
        id: 1,
        content: content.to_string(),
        content_type: "text".into(),
        source_app: String::new(),
        source_window: String::new(),
        source_name: String::new(),
        source_device_id: String::new(),
        hash: "h".into(),
        copy_count: 0,
        is_favorite: false,
        is_pinned: false,
        is_sensitive: false,
        is_trashed: false,
        auto_expire_at: None,
        created_at: String::new(),
        updated_at: String::new(),
        tags: Vec::new(),
        tag_colors: Vec::new(),
        content_html: None,
        media_path: None,
        thumb_path: None,
        width: None,
        height: None,
        media_abs: None,
        thumb_abs: None,
        content_len: None,
        alias: String::new(),
    }
}

#[test]
fn parse_mode_accepts_only_summary_and_tags() {
    assert_eq!(
        AiEnrichMode::parse("summary").unwrap(),
        AiEnrichMode::Summary
    );
    assert_eq!(AiEnrichMode::parse("tags").unwrap(), AiEnrichMode::Tags);
    assert!(AiEnrichMode::parse("rewrite").is_err());
}

#[test]
fn eligible_content_types_only() {
    assert!(ai_eligible_type("text"));
    assert!(ai_eligible_type("code"));
    assert!(ai_eligible_type("link"));
    assert!(!ai_eligible_type("image"));
    assert!(!ai_eligible_type("file"));
}

#[test]
fn capped_content_truncates_and_clamps() {
    assert_eq!(capped_content("abc", 100), "abc");
    let long = "x".repeat(1000);
    assert_eq!(capped_content(&long, 128).chars().count(), 128);
    assert_eq!(capped_content(&long, 4).chars().count(), 64);
}

#[test]
fn config_requires_url_and_model() {
    let mut s = base_settings();
    s.enable_ai = true;
    s.ai_base_url = "https://ok.example/v1".into();
    s.ai_model = "m".into();
    let cfg = AiConfig::from_settings(&s);
    assert!(cfg.is_configured());
    s.ai_model.clear();
    assert!(!AiConfig::from_settings(&s).is_configured());
}

#[test]
fn http_loopback_allowed_others_rejected() {
    assert!(validate_ai_endpoint("http://localhost:11434/v1", "x", "llama3").is_ok());
    assert!(validate_ai_endpoint("http://127.0.0.1:8000/v1", "", "llama3").is_ok());
    assert!(validate_ai_endpoint("http://evil.example/v1", "x", "m").is_err());
    assert!(validate_ai_endpoint("https://ok.example/v1", "x", "m").is_ok());
    assert!(validate_ai_endpoint("https://ok.example/v1", "x", "").is_err());
}

#[test]
fn loopback_hosts_are_recognised() {
    assert!(is_loopback_host("localhost"));
    assert!(is_loopback_host("127.0.0.1"));
    assert!(!is_loopback_host("example.com"));
}

#[test]
fn endpoint_decision_on_given_parse_results() {
    let ok = endpoint_from_parse(
        " http://localhost:1/v1/ ",
        " k ",
        " m ",
        Ok(("http".to_string(), "localhost".to_string())),
    )
    .unwrap();
    assert_eq!(ok.base_url, "http://localhost:1/v1");
    assert_eq!(ok.api_key, "k");
    assert_eq!(ok.model, "m");
    assert_eq!(
        endpoint_from_parse("x", "k", "m", Err("bad".to_string())).unwrap_err(),
        "AI 地址无效: bad"
    );
}

#[test]
fn prepare_rejects_when_runtime_or_capability_off() {
    let mut s = base_settings();
    s.ai_base_url = "https://ok.example/v1".into();
    s.ai_model = "m".into();
    let r = record("hello world");
    assert_eq!(
        prepare_on_demand(&s, &r, AiEnrichMode::Summary).unwrap_err(),
        "请先在 AI 设置中开启 AI 功能"
    );
    s.enable_ai = true;
    s.features.ai = false;
    assert_eq!(
        prepare_on_demand(&s, &r, AiEnrichMode::Summary).unwrap_err(),
        "feature disabled: ai"
    );
}

#[test]
fn prepare_tags_requires_tags_capability() {
    let mut s = base_settings();
    s.enable_ai = true;
    s.ai_base_url = "https://ok.example/v1".into();
    s.ai_model = "m".into();
    s.features.tags = false;
    let r = record("hello world");
    assert_eq!(
        prepare_on_demand(&s, &r, AiEnrichMode::Tags).unwrap_err(),
        "feature disabled: tags"
    );
    assert!(prepare_on_demand(&s, &r, AiEnrichMode::Summary).is_ok());
}

#[test]
fn prepare_rejects_trashed_and_truncates_to_max() {
    let mut s = base_settings();
    s.enable_ai = true;
    s.ai_base_url = "https://ok.example/v1".into();
    s.ai_model = "m".into();
    s.ai_max_chars = 100;
    let mut r = record(&"y".repeat(500));
    let (content, cfg) = prepare_on_demand(&s, &r, AiEnrichMode::Summary).unwrap();
    assert_eq!(content.chars().count(), 100);
    assert_eq!(cfg.max_chars, 100);
    r.is_trashed = true;
    assert_eq!(
        prepare_on_demand(&s, &r, AiEnrichMode::Summary).unwrap_err(),
        "回收站中的记录无法使用 AI"
    );
}

#[test]
fn sanitize_result_trims_caps_and_dedups_tags() {
    let out = sanitize_result(AiResult {
        summary: format!("  {}  ", "s".repeat(100)),
        tags: vec![
            " Rust ".into(),
            "rust".into(),
            "".into(),
            "这是一个非常非常非常非常非常非常长的标签名字超过二十".into(),
            "Go".into(),
        ],
    });
    assert_eq!(out.summary.chars().count(), 80);
    assert_eq!(out.tags, ["Rust", "Go"]);
}

#[test]
fn system_prompt_names_the_language() {
    let zh = build_system_prompt("zh");
    let en = build_system_prompt("en-US");
    assert_ne!(zh, en);
    assert!(en.contains("Reply in English"));
    assert!(zh.contains("Reply in 简体中文"));
}
