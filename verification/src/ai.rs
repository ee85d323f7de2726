//! AI enrichment rules: which records may be sent, how content is capped,
//! endpoint validation, the system prompt, and sanitising the model's reply.
//!
//! Privacy rules enforced here: sensitive or trashed records are never sent;
//! only text-ish content types are eligible; content is truncated before it
//! leaves the machine; plain `http://` is only accepted for loopback hosts.
use vstd::prelude::*;

use crate::record::{feature_key, feature_on, require_feature, ClipboardRecord, FeatureId, Settings};
use crate::text::{
    chars_of, eq_ignore_ascii_case, lowercase, str_eq, str_eq_ignore_ascii_case, string_of,
    take_chars, to_lowercase, trim_end_char, trim_end_char_exec, trim_seq, trim_to_chars,
};

verus! {

/// Longest alias (summary) kept, in characters.
pub const ALIAS_MAX_CHARS: usize = 80;
/// Most tags kept from one model reply.
pub const MAX_TAGS: usize = 5;
/// Longest tag kept, in characters.
pub const MAX_TAG_CHARS: usize = 20;

/// Only text-ish content may be sent to the model.
pub open spec fn ai_eligible_spec(t: Seq<char>) -> bool {
    t == "text"@ || t == "code"@ || t == "link"@
}

/// Which content flavors may be sent to the model (`text` / `code` / `link`).
pub fn ai_eligible_type(content_type: &str) -> (r: bool)
    ensures
        r == ai_eligible_spec(content_type@),
{
    str_eq(content_type, "text") || str_eq(content_type, "code") || str_eq(content_type, "link")
}

/// Snapshot of the AI-related settings at enqueue time.
#[derive(Debug, Clone)]
pub struct AiConfig {
    pub summary_enabled: bool,
    pub tags_enabled: bool,
    pub max_chars: usize,
    pub language: String,
    pub base_url: String,
    pub api_key: String,
    pub model: String,
}

impl AiConfig {
    pub fn from_settings(s: &Settings) -> (r: Self)
        ensures
            r.summary_enabled == s.ai_summary_alias,
            r.tags_enabled == s.ai_auto_tag,
            r.max_chars == (if s.ai_max_chars < 0 { 0 } else { s.ai_max_chars as int }),
            r.language@ == s.language@,
            r.base_url@ == s.ai_base_url@,
            r.api_key@ == s.ai_api_key@,
            r.model@ == s.ai_model@,
    {
        AiConfig {
            summary_enabled: s.ai_summary_alias,
            tags_enabled: s.ai_auto_tag,
            max_chars: if s.ai_max_chars < 0 { 0 } else { s.ai_max_chars as usize },
            language: s.language.clone(),
            base_url: s.ai_base_url.clone(),
            api_key: s.ai_api_key.clone(),
            model: s.ai_model.clone(),
        }
    }

    /// Both the endpoint and the model name are set (non-blank).
    pub fn is_configured(&self) -> (r: bool)
        ensures
            r == (trim_seq(self.base_url@).len() > 0 && trim_seq(self.model@).len() > 0),
    {
        trim_to_chars(self.base_url.as_str()).len() > 0 && trim_to_chars(self.model.as_str()).len()
            > 0
    }
}

/// Content sent to the model: at most `max(max_chars, 64)` characters.
pub open spec fn capped_spec(content: Seq<char>, max_chars: usize) -> Seq<char> {
    let n: int = if max_chars < 64 { 64 } else { max_chars as int };
    if content.len() <= n {
        content
    } else {
        content.take(n)
    }
}

/// Keep the queue light and the exfil surface minimal: truncate before enqueue.
pub fn capped_content(content: &str, max_chars: usize) -> (r: String)
    ensures
        r@ == capped_spec(content@, max_chars),
{
    let n = if max_chars < 64 { 64 } else { max_chars };
    let v = chars_of(content);
    let t = take_chars(&v, n);
    string_of(&t)
}

/// On-demand enrichment mode.
#[derive(Debug, Clone, Copy, PartialEq, Eq, Structural)]
pub enum AiEnrichMode {
    Summary,
    Tags,
}

impl AiEnrichMode {
    /// `"summary"` / `"tags"`; anything else is an error.
    pub fn parse(s: &str) -> (r: Result<Self, String>)
        ensures
            s@ == "summary"@ ==> r == Ok::<AiEnrichMode, String>(AiEnrichMode::Summary),
            s@ != "summary"@ && s@ == "tags"@ ==> r == Ok::<AiEnrichMode, String>(AiEnrichMode::Tags),
            s@ != "summary"@ && s@ != "tags"@ ==> (r matches Err(e) && e@ == "mode 必须是 summary 或 tags"@),
    {
        if str_eq(s, "summary") {
            Ok(AiEnrichMode::Summary)
        } else if str_eq(s, "tags") {
            Ok(AiEnrichMode::Tags)
        } else {
            Err("mode 必须是 summary 或 tags".to_owned())
        }
    }
}

/// Which check of [`prepare_on_demand`] fails first, if any.
pub open spec fn prepare_error(settings: Settings, record: ClipboardRecord, mode: AiEnrichMode) -> Option<
    Seq<char>,
> {
    if !feature_on(settings.features, FeatureId::Ai) {
        Some("feature disabled: "@ + feature_key(FeatureId::Ai))
    } else if mode == AiEnrichMode::Tags && !feature_on(settings.features, FeatureId::Tags) {
        Some("feature disabled: "@ + feature_key(FeatureId::Tags))
    } else if !settings.enable_ai {
        Some("请先在 AI 设置中开启 AI 功能"@)
    } else if !(trim_seq(settings.ai_base_url@).len() > 0 && trim_seq(settings.ai_model@).len() > 0) {
        Some("AI 地址与模型名不能为空"@)
    } else if record.is_trashed {
        Some("回收站中的记录无法使用 AI"@)
    } else if record.is_sensitive {
        Some("敏感内容不会发送给 AI"@)
    } else if !ai_eligible_spec(record.content_type@) {
        Some("该类型不支持 AI 富集"@)
    } else {
        None
    }
}

/// Validate the feature gates, privacy and type rules for a user-initiated
/// enrichment and return the truncated content plus the live config. Does
/// not enforce `ai_min_chars` (a click is consent).
pub fn prepare_on_demand(settings: &Settings, record: &ClipboardRecord, mode: AiEnrichMode) -> (r:
    Result<(String, AiConfig), String>)
    ensures
        match prepare_error(*settings, *record, mode) {
            Some(e) => r matches Err(m) && m@ == e,
            None => r matches Ok((content, cfg)) && content@ == capped_spec(
                record.content@,
                cfg.max_chars,
            ) && cfg.max_chars == (if settings.ai_max_chars < 0 {
                0
            } else {
                settings.ai_max_chars as int
            }) && cfg.base_url@ == settings.ai_base_url@ && cfg.model@ == settings.ai_model@
                && cfg.api_key@ == settings.ai_api_key@ && cfg.language@ == settings.language@
                && cfg.summary_enabled == settings.ai_summary_alias && cfg.tags_enabled
                == settings.ai_auto_tag,
        },
{
    require_feature(settings, FeatureId::Ai)?;
    if mode == AiEnrichMode::Tags {
        require_feature(settings, FeatureId::Tags)?;
    }
    if !settings.enable_ai {
        return Err("请先在 AI 设置中开启 AI 功能".to_owned());
    }
    let config = AiConfig::from_settings(settings);
    if !config.is_configured() {
        return Err("AI 地址与模型名不能为空".to_owned());
    }
    if record.is_trashed {
        return Err("回收站中的记录无法使用 AI".to_owned());
    }
    if record.is_sensitive {
        return Err("敏感内容不会发送给 AI".to_owned());
    }
    if !ai_eligible_type(record.content_type.as_str()) {
        return Err("该类型不支持 AI 富集".to_owned());
    }
    Ok((capped_content(record.content.as_str(), config.max_chars), config))
}

/// Loopback hosts may use plain `http://` (local models).
pub open spec fn loopback_spec(host: Seq<char>) -> bool {
    eq_ignore_ascii_case(host, "localhost"@) || host == "127.0.0.1"@ || host == "::1"@
}

pub fn is_loopback_host(host: &str) -> (r: bool)
    ensures
        r == loopback_spec(host@),
{
    str_eq_ignore_ascii_case(host, "localhost") || str_eq(host, "127.0.0.1") || str_eq(host, "::1")
}

/// What `url::Url::parse` gives for `s`: the scheme and host (empty when the
/// URL has none), or the parse error's message.
pub uninterp spec fn url_scheme_host(s: Seq<char>) -> Result<(Seq<char>, Seq<char>), Seq<char>>;

/// `url::Url::parse`, reduced to the scheme and host text (empty when the
/// URL has none) or the error's display text. The contract only names this
/// outcome; URL syntax itself is not restated.
#[verifier::external_body]
fn parse_url_scheme_host(s: &str) -> (r: Result<(String, String), String>)
    ensures
        match r {
            Ok((scheme, host)) => url_scheme_host(s@) == Ok::<(Seq<char>, Seq<char>), Seq<char>>(
                (scheme@, host@),
            ),
            Err(e) => url_scheme_host(s@) == Err::<(Seq<char>, Seq<char>), Seq<char>>(e@),
        },
{
    match url::Url::parse(s) {
        Ok(u) => Ok((u.scheme().to_string(), u.host_str().unwrap_or_default().to_string())),
        Err(e) => Err(e.to_string()),
    }
}

/// A validated model endpoint.
#[derive(Debug, Clone)]
pub struct AiEndpoint {
    pub base_url: String,
    pub api_key: String,
    pub model: String,
}

/// The endpoint base: trimmed, without trailing slashes.
pub open spec fn endpoint_base(base_url: Seq<char>) -> Seq<char> {
    trim_end_char(trim_seq(base_url), '/')
}

/// Outcome of [`validate_ai_endpoint`] given the URL parse outcome `parsed`
/// of the endpoint base.
pub open spec fn endpoint_decision(
    base_url: Seq<char>,
    model: Seq<char>,
    parsed: Result<(Seq<char>, Seq<char>), Seq<char>>,
) -> Result<(), Seq<char>> {
    if endpoint_base(base_url).len() == 0 || trim_seq(model).len() == 0 {
        Err("AI 地址与模型名不能为空"@)
    } else {
        match parsed {
            Err(e) => Err("AI 地址无效: "@ + e),
            Ok((scheme, host)) => if scheme != "https"@ && !loopback_spec(host) {
                Err("AI 地址必须使用 https://（仅允许 http://localhost 之类的本机模型）"@)
            } else {
                Ok(())
            },
        }
    }
}

/// The endpoint for `base_url`, `api_key` and `model` once the base was
/// parsed (`parsed`): base and model must be set, and the base must be
/// `https://` unless the host is loopback.
pub fn endpoint_from_parse(
    base_url: &str,
    api_key: &str,
    model: &str,
    parsed: Result<(String, String), String>,
) -> (r: Result<AiEndpoint, String>)
    ensures
        match endpoint_decision(
            base_url@,
            model@,
            match parsed {
                Ok((a, b)) => Ok::<(Seq<char>, Seq<char>), Seq<char>>((a@, b@)),
                Err(e) => Err::<(Seq<char>, Seq<char>), Seq<char>>(e@),
            },
        ) {
            Err(e) => r matches Err(m) && m@ == e,
            Ok(_) => r matches Ok(ep) && ep.base_url@ == endpoint_base(base_url@) && ep.api_key@
                == trim_seq(api_key@) && ep.model@ == trim_seq(model@),
        },
{
    let t = trim_to_chars(base_url);
    let b = trim_end_char_exec(&t, '/');
    let base = string_of(&b);
    let m = trim_to_chars(model);
    if b.len() == 0 || m.len() == 0 {
        return Err("AI 地址与模型名不能为空".to_owned());
    }
    match parsed {
        Err(e) => {
            let mut msg = String::new();
            msg.append("AI 地址无效: ");
            msg.append(e.as_str());
            Err(msg)
        },
        Ok((scheme, host)) => {
            if !str_eq(scheme.as_str(), "https") && !is_loopback_host(host.as_str()) {
                return Err(
                    "AI 地址必须使用 https://（仅允许 http://localhost 之类的本机模型）".to_owned(),
                );
            }
            let k = trim_to_chars(api_key);
            Ok(AiEndpoint { base_url: base, api_key: string_of(&k), model: string_of(&m) })
        },
    }
}

/// Validate an OpenAI-compatible endpoint: base and model must be set, and
/// the base must be `https://` unless the host is loopback. The stored base
/// is trimmed without trailing slashes; key and model are trimmed.
pub fn validate_ai_endpoint(base_url: &str, api_key: &str, model: &str) -> (r: Result<
    AiEndpoint,
    String,
>)
    ensures
        match endpoint_decision(
            base_url@,
            model@,
            url_scheme_host(endpoint_base(base_url@)),
        ) {
            Err(e) => r matches Err(m) && m@ == e,
            Ok(_) => r matches Ok(ep) && ep.base_url@ == endpoint_base(base_url@) && ep.api_key@
                == trim_seq(api_key@) && ep.model@ == trim_seq(model@),
        },
{
    let t = trim_to_chars(base_url);
    let b = trim_end_char_exec(&t, '/');
    let base = string_of(&b);
    let parsed = parse_url_scheme_host(base.as_str());
    endpoint_from_parse(base_url, api_key, model, parsed)
}

/// The chat-completions URL of a validated endpoint.
pub fn chat_endpoint(ep: &AiEndpoint) -> (r: String)
    ensures
        r@ == ep.base_url@ + "/chat/completions"@,
{
    let mut s = String::new();
    s.append(ep.base_url.as_str());
    s.append("/chat/completions");
    s
}

pub open spec fn prompt_language(language: Seq<char>) -> Seq<char> {
    if eq_ignore_ascii_case(language, "en-US"@) {
        "English"@
    } else {
        "简体中文"@
    }
}

pub open spec fn system_prompt_spec(language: Seq<char>) -> Seq<char> {
    let lang = prompt_language(language);
    "You organize clipboard content. Reply in "@ + lang
        + ". Output ONLY strict JSON with this exact shape, and nothing outside it: {\"summary\":\"...\",\"tags\":[\"...\",\"...\"]}.\nRules:\n- \"summary\" is one sentence (prefer "@
        + lang
        + ", max 80 characters) capturing the core information, suitable as a list title/alias. Empty string when the content has no real meaning (bare link, garbled text, a single symbol).\n- \"tags\" holds 1 to 5 short tags (2-8 characters each) covering the topic; empty array when nothing can be classified.\n- Never invent facts that are not in the content. Do not repeat the whole content."@
}

/// System prompt asking for strict JSON with a short summary (<= 80 chars)
/// and up to 5 tags, in English for `en-US` and Simplified Chinese otherwise.
pub fn build_system_prompt(language: &str) -> (r: String)
    ensures
        r@ == system_prompt_spec(language@),
{
    let lang = if str_eq_ignore_ascii_case(language, "en-US") {
        "English"
    } else {
        "简体中文"
    };
    let mut s = String::new();
    s.append("You organize clipboard content. Reply in ");
    s.append(lang);
    s.append(
        ". Output ONLY strict JSON with this exact shape, and nothing outside it: {\"summary\":\"...\",\"tags\":[\"...\",\"...\"]}.\nRules:\n- \"summary\" is one sentence (prefer ",
    );
    s.append(lang);
    s.append(
        ", max 80 characters) capturing the core information, suitable as a list title/alias. Empty string when the content has no real meaning (bare link, garbled text, a single symbol).\n- \"tags\" holds 1 to 5 short tags (2-8 characters each) covering the topic; empty array when nothing can be classified.\n- Never invent facts that are not in the content. Do not repeat the whole content.",
    );
    s
}


/// A parsed model reply.
#[derive(Debug, Clone)]
pub struct AiResult {
    pub summary: String,
    pub tags: Vec<String>,
}

/// Summary kept: trimmed, at most `ALIAS_MAX_CHARS` characters.
pub open spec fn sanitized_summary(s: Seq<char>) -> Seq<char> {
    let t = trim_seq(s);
    if t.len() > ALIAS_MAX_CHARS {
        t.take(ALIAS_MAX_CHARS as int)
    } else {
        t
    }
}

/// `t` equals (case-insensitively) some tag already kept.
pub open spec fn seen_case_insensitive(seen: Seq<Seq<char>>, t: Seq<char>) -> bool {
    exists|j: int| 0 <= j < seen.len() && lowercase(#[trigger] seen[j]) == lowercase(t)
}

/// Tags kept from the first `n` raw tags: trimmed, non-empty, at most
/// `MAX_TAG_CHARS` characters, first spelling of each case-insensitive name,
/// and no more than `MAX_TAGS` in all.
pub open spec fn sanitized_tags_upto(tags: Seq<Seq<char>>, n: int) -> Seq<Seq<char>>
    decreases n,
{
    if n <= 0 {
        Seq::empty()
    } else {
        let seen = sanitized_tags_upto(tags, n - 1);
        let t = trim_seq(tags[n - 1]);
        if seen.len() >= MAX_TAGS || t.len() == 0 || t.len() > MAX_TAG_CHARS
            || seen_case_insensitive(seen, t) {
            seen
        } else {
            seen.push(t)
        }
    }
}

pub open spec fn strings_view(v: Seq<String>) -> Seq<Seq<char>> {
    v.map_values(|s: String| s@)
}

/// Trim a success payload down to what is trusted before it reaches the
/// store: summary trimmed and capped to the alias width; tags trimmed,
/// deduplicated case-insensitively, length-checked and capped in number.
pub fn sanitize_result(r: AiResult) -> (out: AiResult)
    ensures
        out.summary@ == sanitized_summary(r.summary@),
        strings_view(out.tags@) == sanitized_tags_upto(strings_view(r.tags@), r.tags@.len() as int),
{
    let st = trim_to_chars(r.summary.as_str());
    let sv = take_chars(&st, ALIAS_MAX_CHARS);
    let summary = string_of(&sv);
    let ghost raw = strings_view(r.tags@);
    let mut seen: Vec<String> = Vec::new();
    let mut seen_lower: Vec<String> = Vec::new();
    let mut i: usize = 0;
    while i < r.tags.len()
        invariant
            i <= r.tags@.len(),
            raw == strings_view(r.tags@),
            strings_view(seen@) == sanitized_tags_upto(raw, i as int),
            seen_lower@.len() == seen@.len(),
            forall|j: int| 0 <= j < seen@.len() ==> (#[trigger] seen_lower@[j])@ == lowercase(seen@[j]@),
        decreases r.tags@.len() - i,
    {
        let ghost prev = sanitized_tags_upto(raw, i as int);
        assert(raw[i as int] == r.tags@[i as int]@);
        if seen.len() < MAX_TAGS {
            let tv = trim_to_chars(r.tags[i].as_str());
            if tv.len() > 0 && tv.len() <= MAX_TAG_CHARS {
                let t = string_of(&tv);
                let key = to_lowercase(t.as_str());
                let mut dup = false;
                let mut j: usize = 0;
                while j < seen_lower.len()
                    invariant
                        j <= seen_lower@.len(),
                        seen_lower@.len() == seen@.len(),
                        forall|m: int| 0 <= m < seen@.len() ==> (#[trigger] seen_lower@[m])@ == lowercase(seen@[m]@),
                        strings_view(seen@) == prev,
                        dup == exists|m: int| 0 <= m < j && lowercase(#[trigger] prev[m]) == key@,
                    decreases seen_lower@.len() - j,
                {
                    if seen_lower[j] == key {
                        dup = true;
                    }
                    assert(prev[j as int] == seen@[j as int]@);
                    j = j + 1;
                }
                if !dup {
                    let ghost sv0 = seen@;
                    seen.push(t);
                    seen_lower.push(key);
                    assert(strings_view(seen@) =~= strings_view(sv0).push(tv@));
                }
            }
        }
        i = i + 1;
        assert(strings_view(seen@) == sanitized_tags_upto(raw, i as int));
    }
    AiResult { summary, tags: seen }
}

/// What survives sanitizing a reply's tags: at most `MAX_TAGS` tags, each
/// trimmed, non-empty and at most `MAX_TAG_CHARS` characters, no two of
/// them equal ignoring case, each one a trimmed input tag.
pub proof fn lemma_sanitized_tags_bounded(tags: Seq<Seq<char>>, n: int)
    requires
        n <= tags.len(),
    ensures
        ({
            let out = sanitized_tags_upto(tags, n);
            &&& out.len() <= MAX_TAGS
            &&& forall|k: int|
                0 <= k < out.len() ==> 0 < (#[trigger] out[k]).len() <= MAX_TAG_CHARS && trim_seq(
                    out[k],
                ) == out[k] && exists|j: int| 0 <= j < n && j < tags.len() && trim_seq(tags[j]) == out[k]
            &&& forall|a: int, b: int|
                0 <= a < b < out.len() ==> lowercase(#[trigger] out[a]) != lowercase(#[trigger] out[b])
        }),
    decreases n,
{
    if n > 0 {
        lemma_sanitized_tags_bounded(tags, n - 1);
        let seen = sanitized_tags_upto(tags, n - 1);
        let t = trim_seq(tags[n - 1]);
        let out = sanitized_tags_upto(tags, n);
        crate::text::lemma_trim_idempotent(tags[n - 1]);
        if !(seen.len() >= MAX_TAGS || t.len() == 0 || t.len() > MAX_TAG_CHARS
            || seen_case_insensitive(seen, t)) {
            assert(out == seen.push(t));
            assert forall|k: int| 0 <= k < out.len() implies 0 < (#[trigger] out[k]).len()
                <= MAX_TAG_CHARS && trim_seq(out[k]) == out[k] && exists|j: int|
                0 <= j < n && j < tags.len() && trim_seq(tags[j]) == out[k] by {
                if k < seen.len() {
                    assert(out[k] == seen[k]);
                    let j = choose|j: int|
                        0 <= j < n - 1 && j < tags.len() && trim_seq(tags[j]) == seen[k];
                    assert(0 <= j < n && j < tags.len() && trim_seq(tags[j]) == out[k]);
                } else {
                    assert(out[k] == t);
                    assert(0 <= n - 1 < n && n - 1 < tags.len() && trim_seq(tags[n - 1]) == out[k]);
                }
            }
            assert forall|a: int, b: int| 0 <= a < b < out.len() implies lowercase(
                #[trigger] out[a],
            ) != lowercase(#[trigger] out[b]) by {
                if b == seen.len() {
                    assert(out[a] == seen[a] && out[b] == t);
                    if lowercase(seen[a]) == lowercase(t) {
                        assert(seen_case_insensitive(seen, t));
                    }
                } else {
                    assert(out[a] == seen[a] && out[b] == seen[b]);
                }
            }
        }
    }
}

} // verus!
