//! Shared data types: clipboard records, the settings subset the library's
//! rules read, and auto-tag rules.
use vstd::prelude::*;

use crate::content::ContentType;

verus! {

/// One clipboard record as listed, exported and imported.
#[derive(Debug, Clone)]
pub struct ClipboardRecord {
    pub id: i64,
    pub content: String,
    pub content_type: String,
    pub source_app: String,
    pub source_window: String,
    pub source_name: String,
    pub source_device_id: String,
    pub hash: String,
    pub copy_count: i32,
    pub is_favorite: bool,
    pub is_pinned: bool,
    pub is_sensitive: bool,
    pub is_trashed: bool,
    pub auto_expire_at: Option<String>,
    pub created_at: String,
    pub updated_at: String,
    pub tags: Vec<String>,
    pub tag_colors: Vec<(String, String)>,
    pub content_html: Option<String>,
    pub media_path: Option<String>,
    pub thumb_path: Option<String>,
    pub width: Option<i32>,
    pub height: Option<i32>,
    pub media_abs: Option<String>,
    pub thumb_abs: Option<String>,
    pub content_len: Option<i32>,
    pub alias: String,
}

/// Per-feature switches (each gated feature can be turned off as a whole).
#[derive(Debug, Clone, Copy)]
pub struct FeatureFlags {
    pub ai: bool,
    pub tags: bool,
    pub batch: bool,
}

/// Features that can be switched off.
#[derive(Debug, Clone, Copy, PartialEq, Eq, Structural)]
pub enum FeatureId {
    Ai,
    Tags,
    Batch,
}

/// Auto-tag rule: a record gets `tag_name` when its type is listed or its
/// content contains one of the keywords (case-insensitive).
#[derive(Debug, Clone)]
pub struct AutoTagRule {
    pub tag_name: String,
    pub content_types: Vec<ContentType>,
    pub keywords: Vec<String>,
}

/// The settings that the library's rules read.
#[derive(Debug, Clone)]
pub struct Settings {
    pub features: FeatureFlags,
    pub enable_ai: bool,
    pub ai_base_url: String,
    pub ai_api_key: String,
    pub ai_model: String,
    pub ai_summary_alias: bool,
    pub ai_auto_tag: bool,
    pub ai_max_chars: i32,
    pub ai_min_chars: i32,
    pub language: String,
    pub enable_sensitive_detection: bool,
    pub sensitive_auto_expire_seconds: i32,
    pub theme: String,
    pub enable_blur: bool,
    pub blur_strength: i32,
    pub enable_animation: bool,
    pub panel_opacity: i32,
    pub max_records: i32,
    pub retention_days: i32,
    pub enable_auto_tag: bool,
    pub auto_tag_rules: Vec<AutoTagRule>,
    pub ignored_apps: Vec<String>,
    pub webdav_device_id: String,
}

pub open spec fn feature_on(f: FeatureFlags, id: FeatureId) -> bool {
    match id {
        FeatureId::Ai => f.ai,
        FeatureId::Tags => f.tags,
        FeatureId::Batch => f.batch,
    }
}

pub open spec fn feature_key(id: FeatureId) -> Seq<char> {
    match id {
        FeatureId::Ai => "ai"@,
        FeatureId::Tags => "tags"@,
        FeatureId::Batch => "batch"@,
    }
}

/// `Err("feature disabled: <key>")` when the feature is switched off.
pub fn require_feature(settings: &Settings, id: FeatureId) -> (r: Result<(), String>)
    ensures
        r is Ok == feature_on(settings.features, id),
        r matches Err(e) ==> e@ == "feature disabled: "@ + feature_key(id),
{
    let on = match id {
        FeatureId::Ai => settings.features.ai,
        FeatureId::Tags => settings.features.tags,
        FeatureId::Batch => settings.features.batch,
    };
    if on {
        Ok(())
    } else {
        let mut e = String::new();
        e.append("feature disabled: ");
        e.append(
            match id {
                FeatureId::Ai => "ai",
                FeatureId::Tags => "tags",
                FeatureId::Batch => "batch",
            },
        );
        Err(e)
    }
}

/// The built-in auto-tag rules: links are tagged 链接; deployment and
/// front-end snippets by keyword.
pub fn default_auto_tag_rules() -> (r: Vec<AutoTagRule>)
    ensures
        r@.len() == 3,
        r@[0].tag_name@ == "链接"@ && r@[0].content_types@ == seq![ContentType::Link]
            && r@[0].keywords@.len() == 0,
        r@[1].tag_name@ == "部署"@ && r@[1].content_types@.len() == 0 && r@[1].keywords@.len() == 2
            && r@[1].keywords@[0]@ == "部署"@ && r@[1].keywords@[1]@ == "deploy"@,
        r@[2].tag_name@ == "前端"@ && r@[2].content_types@.len() == 0 && r@[2].keywords@.len() == 2
            && r@[2].keywords@[0]@ == "前端"@ && r@[2].keywords@[1]@ == "frontend"@,
{
    let mut link_types: Vec<ContentType> = Vec::new();
    link_types.push(ContentType::Link);
    let mut deploy: Vec<String> = Vec::new();
    deploy.push("部署".to_owned());
    deploy.push("deploy".to_owned());
    let mut front: Vec<String> = Vec::new();
    front.push("前端".to_owned());
    front.push("frontend".to_owned());
    let mut r: Vec<AutoTagRule> = Vec::new();
    r.push(AutoTagRule { tag_name: "链接".to_owned(), content_types: link_types, keywords: Vec::new() });
    r.push(AutoTagRule { tag_name: "部署".to_owned(), content_types: Vec::new(), keywords: deploy });
    r.push(AutoTagRule { tag_name: "前端".to_owned(), content_types: Vec::new(), keywords: front });
    r
}

impl Default for Settings {
    /// Settings of a fresh install.
    fn default() -> (r: Settings)
        ensures
            r.features.ai && r.features.tags && r.features.batch,
            !r.enable_ai && r.ai_summary_alias && r.ai_auto_tag,
            r.ai_max_chars == 2000 && r.ai_min_chars == 0,
            r.enable_sensitive_detection && r.sensitive_auto_expire_seconds == 0,
            r.max_records == 1000 && r.retention_days == 30,
            r.enable_auto_tag,
            r.auto_tag_rules@.len() == 3 && r.auto_tag_rules@[0].tag_name@ == "链接"@
                && r.auto_tag_rules@[0].content_types@ == seq![ContentType::Link],
            r.ignored_apps@.len() == 0 && r.webdav_device_id@.len() == 0,
            r.ai_base_url@.len() == 0 && r.ai_api_key@.len() == 0 && r.ai_model@.len() == 0,
    {
        Settings {
            features: FeatureFlags { ai: true, tags: true, batch: true },
            enable_ai: false,
            ai_base_url: String::new(),
            ai_api_key: String::new(),
            ai_model: String::new(),
            ai_summary_alias: true,
            ai_auto_tag: true,
            ai_max_chars: 2000,
            ai_min_chars: 0,
            language: "zh-CN".to_owned(),
            enable_sensitive_detection: true,
            sensitive_auto_expire_seconds: 0,
            theme: "system".to_owned(),
            enable_blur: true,
            blur_strength: 20,
            enable_animation: true,
            panel_opacity: 100,
            max_records: 1000,
            retention_days: 30,
            enable_auto_tag: true,
            auto_tag_rules: default_auto_tag_rules(),
            ignored_apps: Vec::new(),
            webdav_device_id: String::new(),
        }
    }
}

} // verus!
