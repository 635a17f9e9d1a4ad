//! Provider settings as the user edits and saves them: normalization of
//! user input, the built-in provider list, merging of a workspace
//! configuration, the defaults shown in the settings view, and the choices
//! made when testing, pinging or transcribing with a provider.

use vstd::prelude::*;
use crate::config::{ConfigModel, ProviderConfig, ProviderSettings, SettingsModel, default_key_ref,
    default_key_ref_for, key_ref_of, models, opt_chars, by_priority, sort_by_priority};
use crate::model::{AiProviderType, ProviderCapability, copy_capabilities, display_name_of,
    has_capability};
use crate::provider_id::{sanitize_provider_id, sanitized_id};
use crate::search::{find_first, lemma_find_first_skip, lemma_find_first_hit, lemma_find_first_end};
use crate::text::{blank, concat, copy_opt_string, is_blank, str_eq, strings_view, trim, trim_ws,
    trimmed_opt};

verus! {

// ───────────────────────────── built-in values ─────────────────────────────

/// OpenAI's API base URL.
pub const OPENAI_API_BASE: &'static str = "https://api.openai.com/v1";

/// The model OpenAI text requests use by default.
pub const OPENAI_DEFAULT_MODEL: &'static str = "gpt-4o-mini";

/// OpenRouter's API base URL.
pub const OPENROUTER_API_BASE: &'static str = "https://openrouter.ai/api/v1";

/// Where a local Ollama server listens by default.
pub const OLLAMA_DEFAULT_HOST: &'static str = "http://localhost:11434";

/// Beeknoee's OpenAI-compatible chat endpoint.
pub const BEEKNOEE_API_BASE: &'static str = "https://platform.beeknoee.com/api/v1/chat/completions";

/// The model Beeknoee requests use by default.
pub const BEEKNOEE_DEFAULT_MODEL: &'static str = "gpt-4o-mini";

/// The default model of a provider family.
pub open spec fn default_model_of(t: AiProviderType) -> Seq<char> {
    match t {
        AiProviderType::OpenAi => "gpt-4o-mini"@,
        AiProviderType::OpenRouter => "openai/gpt-4o-mini"@,
        AiProviderType::Anthropic => "sonnet-4-5-20250929"@,
        AiProviderType::Gemini => "gemini-2.0-flash"@,
        AiProviderType::Ollama => "llama3.2"@,
        AiProviderType::Mlx => "mlx-community/Qwen3-14B-4bit"@,
        AiProviderType::AppleIntelligence => "apple-intelligence-default"@,
    }
}

/// The base URL a provider family uses when none is configured.
pub open spec fn default_base_url_of(t: AiProviderType) -> Option<Seq<char>> {
    match t {
        AiProviderType::OpenAi => Some("https://api.openai.com/v1"@),
        AiProviderType::OpenRouter => Some("https://openrouter.ai/api/v1"@),
        AiProviderType::Ollama => Some("http://localhost:11434"@),
        _ => None,
    }
}

/// The keychain account under which the app keeps a family's legacy key.
pub open spec fn keychain_account_of(t: AiProviderType) -> Seq<char> {
    match t {
        AiProviderType::OpenAi => "openai_api_key"@,
        AiProviderType::OpenRouter => "openrouter_api_key"@,
        AiProviderType::Anthropic => "anthropic_api_key"@,
        AiProviderType::Gemini => "gemini_api_key"@,
        AiProviderType::Ollama => "ollama_host"@,
        AiProviderType::Mlx => "mlx_api_key"@,
        AiProviderType::AppleIntelligence => "apple_intelligence_api_key"@,
    }
}

/// The default model of a provider family.
pub fn default_model_for(provider_type: AiProviderType) -> (r: &'static str)
    ensures
        r@ == default_model_of(provider_type),
{
    match provider_type {
        AiProviderType::OpenAi => "gpt-4o-mini",
        AiProviderType::OpenRouter => "openai/gpt-4o-mini",
        AiProviderType::Anthropic => "sonnet-4-5-20250929",
        AiProviderType::Gemini => "gemini-2.0-flash",
        AiProviderType::Ollama => "llama3.2",
        AiProviderType::Mlx => "mlx-community/Qwen3-14B-4bit",
        AiProviderType::AppleIntelligence => "apple-intelligence-default",
    }
}

/// The base URL a provider family uses when none is configured.
pub fn default_base_url_for(provider_type: AiProviderType) -> (r: Option<String>)
    ensures
        opt_chars(r) == default_base_url_of(provider_type),
{
    match provider_type {
        AiProviderType::OpenAi => Some("https://api.openai.com/v1".to_owned()),
        AiProviderType::OpenRouter => Some("https://openrouter.ai/api/v1".to_owned()),
        AiProviderType::Ollama => Some("http://localhost:11434".to_owned()),
        _ => None,
    }
}

/// The keychain account under which the app keeps a family's legacy key.
pub fn keychain_account_for(provider_type: AiProviderType) -> (r: &'static str)
    ensures
        r@ == keychain_account_of(provider_type),
{
    match provider_type {
        AiProviderType::OpenAi => "openai_api_key",
        AiProviderType::OpenRouter => "openrouter_api_key",
        AiProviderType::Anthropic => "anthropic_api_key",
        AiProviderType::Gemini => "gemini_api_key",
        AiProviderType::Ollama => "ollama_host",
        AiProviderType::Mlx => "mlx_api_key",
        AiProviderType::AppleIntelligence => "apple_intelligence_api_key",
    }
}

// ───────────────────────────── small rules ─────────────────────────────

/// An optional text trimmed, and dropped when blank.
pub fn sanitize_optional(value: Option<String>) -> (r: Option<String>)
    ensures
        opt_chars(r) == trimmed_opt(opt_chars(value)),
{
    match value {
        Some(v) => {
            let t = trim(v.as_str());
            if t.as_str().is_empty() {
                None
            } else {
                Some(t)
            }
        },
        None => None,
    }
}

/// The text form of a random (version 4) UUID: 36 characters, lower-case
/// hexadecimal digits with `-` at positions 8, 13, 18 and 23.
pub open spec fn is_uuid_text(s: Seq<char>) -> bool {
    &&& s.len() == 36
    &&& forall|i: int|
        0 <= i < 36 ==> if i == 8 || i == 13 || i == 18 || i == 23 {
            #[trigger] s[i] == '-'
        } else {
            ('0' <= s[i] && s[i] <= '9') || ('a' <= s[i] && s[i] <= 'f')
        }
}

/// A fresh random UUID in text form.
///
/// Calls `uuid::Uuid::new_v4` and formats it with `Display`, which the uuid
/// crate writes in the lower-case hyphenated form; the contract states that
/// form and nothing of the (random) digits.
#[verifier::external_body]
fn fresh_uuid() -> (r: String)
    ensures
        is_uuid_text(r@),
{
    uuid::Uuid::new_v4().to_string()
}

// ───────────────────────────── user input ─────────────────────────────

/// A provider as the settings form submits it.
#[derive(Debug)]
pub struct ProviderConfigInput {
    pub id: Option<String>,
    pub label: String,
    pub provider_type: AiProviderType,
    pub base_url: Option<String>,
    pub default_model: String,
    pub enabled: bool,
    pub priority: u32,
    pub capabilities: Vec<ProviderCapability>,
    pub api_key_ref: Option<String>,
    pub api_key: Option<String>,
    pub clear_api_key: bool,
}

/// The contents of a [`ProviderConfigInput`].
pub struct InputModel {
    pub id: Option<Seq<char>>,
    pub label: Seq<char>,
    pub provider_type: AiProviderType,
    pub base_url: Option<Seq<char>>,
    pub default_model: Seq<char>,
    pub enabled: bool,
    pub priority: u32,
    pub capabilities: Seq<ProviderCapability>,
    pub api_key_ref: Option<Seq<char>>,
    pub api_key: Option<Seq<char>>,
    pub clear_api_key: bool,
}

impl View for ProviderConfigInput {
    type V = InputModel;

    open spec fn view(&self) -> InputModel {
        InputModel {
            id: opt_chars(self.id),
            label: self.label@,
            provider_type: self.provider_type,
            base_url: opt_chars(self.base_url),
            default_model: self.default_model@,
            enabled: self.enabled,
            priority: self.priority,
            capabilities: self.capabilities@,
            api_key_ref: opt_chars(self.api_key_ref),
            api_key: opt_chars(self.api_key),
            clear_api_key: self.clear_api_key,
        }
    }
}

/// The contents of a list of inputs.
pub open spec fn input_models(s: Seq<ProviderConfigInput>) -> Seq<InputModel> {
    s.map_values(|p: ProviderConfigInput| p@)
}

/// An id that names something: present and not blank.
pub open spec fn usable_id(id: Option<Seq<char>>) -> bool {
    id matches Some(v) && !is_blank(v)
}

/// A submitted provider made consistent: an id (the given one sanitized, or
/// one made from the label and `fresh`), a trimmed label (the family's name
/// when blank), a trimmed model (the family's default when blank), a trimmed
/// base URL (none when blank) and at least the text capability.
pub open spec fn normalized_input(m: InputModel, fresh: Seq<char>) -> InputModel {
    InputModel {
        id: Some(
            if usable_id(m.id) {
                sanitized_id(m.id->0)
            } else {
                sanitized_id(m.label + "-"@ + fresh)
            },
        ),
        label: if trim_ws(m.label).len() == 0 {
            display_name_of(m.provider_type)
        } else {
            trim_ws(m.label)
        },
        default_model: if trim_ws(m.default_model).len() == 0 {
            default_model_of(m.provider_type)
        } else {
            trim_ws(m.default_model)
        },
        base_url: trimmed_opt(m.base_url),
        capabilities: if m.capabilities.len() == 0 {
            seq![ProviderCapability::Text]
        } else {
            m.capabilities
        },
        ..m
    }
}

fn has_usable_id(id: &Option<String>) -> (r: bool)
    ensures
        r == usable_id(opt_chars(*id)),
{
    match id {
        Some(v) => !blank(v.as_str()),
        None => false,
    }
}

/// Makes a submitted provider consistent, using `fresh` for a new id when the
/// input has none (see [`normalized_input`]).
pub fn normalize_provider_input_with(input: ProviderConfigInput, fresh: &str) -> (r:
    ProviderConfigInput)
    ensures
        r@ == normalized_input(input@, fresh@),
{
    let generated_id = match &input.id {
        Some(id) if !blank(id.as_str()) => sanitize_provider_id(id.as_str()),
        _ => {
            let a = concat(input.label.as_str(), "-");
            let b = concat(a.as_str(), fresh);
            assert(b@ == input.label@ + "-"@ + fresh@);
            sanitize_provider_id(b.as_str())
        },
    };
    let mut label = trim(input.label.as_str());
    if label.as_str().is_empty() {
        label = input.provider_type.display_name();
    }
    let mut default_model = trim(input.default_model.as_str());
    if default_model.as_str().is_empty() {
        default_model = default_model_for(input.provider_type).to_owned();
    }
    let base_url = sanitize_optional(input.base_url);
    let capabilities = if input.capabilities.len() == 0 {
        let mut v: Vec<ProviderCapability> = Vec::new();
        v.push(ProviderCapability::Text);
        v
    } else {
        input.capabilities
    };
    let r = ProviderConfigInput {
        id: Some(generated_id),
        label,
        provider_type: input.provider_type,
        base_url,
        default_model,
        enabled: input.enabled,
        priority: input.priority,
        capabilities,
        api_key_ref: input.api_key_ref,
        api_key: input.api_key,
        clear_api_key: input.clear_api_key,
    };
    assert(r@.capabilities =~= normalized_input(input@, fresh@).capabilities);
    r
}

/// Makes a submitted provider consistent (see [`normalized_input`]); a
/// provider without a usable id gets one made from its label and a fresh
/// random UUID.
pub fn normalize_provider_input(input: ProviderConfigInput) -> (r: ProviderConfigInput)
    ensures
        usable_id(input@.id) ==> r@ == normalized_input(input@, Seq::empty()),
        !usable_id(input@.id) ==> exists|u: Seq<char>|
            is_uuid_text(u) && r@ == normalized_input(input@, u),
{
    if has_usable_id(&input.id) {
        normalize_provider_input_with(input, "")
    } else {
        let fresh = fresh_uuid();
        normalize_provider_input_with(input, fresh.as_str())
    }
}

/// The config saved for a submitted provider: its id (`fresh` when it has
/// none), its family's base URL when it gives none, and its key reference
/// (`ai.provider.<id>.apiKey` when it gives none or a blank one).
pub open spec fn config_from_input(m: InputModel, fresh: Seq<char>) -> ConfigModel {
    let id = match m.id {
        Some(i) => i,
        None => fresh,
    };
    ConfigModel {
        id,
        label: m.label,
        provider_type: m.provider_type,
        base_url: match m.base_url {
            Some(b) => Some(b),
            None => default_base_url_of(m.provider_type),
        },
        default_model: m.default_model,
        enabled: m.enabled,
        priority: m.priority,
        capabilities: m.capabilities,
        api_key_ref: Some(
            match m.api_key_ref {
                Some(r) if !is_blank(r) => r,
                _ => default_key_ref(id),
            },
        ),
    }
}

/// The config saved for a submitted provider, using `fresh` as the id when
/// the input has none (see [`config_from_input`]).
pub fn provider_config_from_input_with(input: &ProviderConfigInput, fresh: &str) -> (r:
    ProviderConfig)
    ensures
        r@ == config_from_input(input@, fresh@),
{
    let id = match &input.id {
        Some(i) => i.clone(),
        None => fresh.to_owned(),
    };
    let base_url = match &input.base_url {
        Some(b) => Some(b.clone()),
        None => default_base_url_for(input.provider_type),
    };
    let api_key_ref = match &input.api_key_ref {
        Some(r) if !blank(r.as_str()) => r.clone(),
        _ => default_key_ref_for(id.as_str()),
    };
    ProviderConfig {
        id,
        label: input.label.clone(),
        provider_type: input.provider_type,
        base_url,
        default_model: input.default_model.clone(),
        enabled: input.enabled,
        priority: input.priority,
        capabilities: copy_capabilities(&input.capabilities),
        api_key_ref: Some(api_key_ref),
    }
}

/// The config saved for a submitted provider (see [`config_from_input`]); a
/// provider without an id gets a fresh random UUID as its id.
pub fn provider_config_from_input(input: &ProviderConfigInput) -> (r: ProviderConfig)
    ensures
        input@.id is Some ==> r@ == config_from_input(input@, Seq::empty()),
        input@.id is None ==> exists|u: Seq<char>|
            is_uuid_text(u) && r@ == config_from_input(input@, u),
{
    match &input.id {
        Some(_) => provider_config_from_input_with(input, ""),
        None => {
            let fresh = fresh_uuid();
            provider_config_from_input_with(input, fresh.as_str())
        },
    }
}


// ───────────────────────────── built-in providers ─────────────────────────────

/// A built-in provider entry.
pub open spec fn builtin(
    id: Seq<char>,
    label: Seq<char>,
    t: AiProviderType,
    base_url: Option<Seq<char>>,
    model: Seq<char>,
    enabled: bool,
    priority: u32,
    capabilities: Seq<ProviderCapability>,
    key_ref: Seq<char>,
) -> ConfigModel {
    ConfigModel {
        id,
        label,
        provider_type: t,
        base_url,
        default_model: model,
        enabled,
        priority,
        capabilities,
        api_key_ref: Some(key_ref),
    }
}

/// The providers the app knows out of the box: OpenAI (enabled, for text and
/// transcription), then Beeknoee, OpenRouter, Anthropic, Gemini and Ollama
/// (disabled, text only).
pub open spec fn builtin_providers() -> Seq<ConfigModel> {
    seq![
        builtin("openai"@, "OpenAI"@, AiProviderType::OpenAi, Some("https://api.openai.com/v1"@),
            "gpt-4o-mini"@, true, 0,
            seq![ProviderCapability::Text, ProviderCapability::Transcription],
            keychain_account_of(AiProviderType::OpenAi)),
        builtin("beeknoee"@, "Beeknoee"@, AiProviderType::OpenAi,
            Some("https://platform.beeknoee.com/api/v1/chat/completions"@), "gpt-4o-mini"@, false, 1,
            seq![ProviderCapability::Text], "ai.provider.beeknoee.apiKey"@),
        builtin("openrouter"@, "OpenRouter"@, AiProviderType::OpenRouter,
            Some("https://openrouter.ai/api/v1"@), "openai/gpt-4o-mini"@, false, 2,
            seq![ProviderCapability::Text], keychain_account_of(AiProviderType::OpenRouter)),
        builtin("anthropic"@, "Anthropic"@, AiProviderType::Anthropic, None, "sonnet-4-5-20250929"@,
            false, 3, seq![ProviderCapability::Text], keychain_account_of(AiProviderType::Anthropic)),
        builtin("gemini"@, "Gemini"@, AiProviderType::Gemini, None, "gemini-2.0-flash"@, false, 4,
            seq![ProviderCapability::Text], keychain_account_of(AiProviderType::Gemini)),
        builtin("ollama"@, "Ollama"@, AiProviderType::Ollama, Some("http://localhost:11434"@),
            "llama3.2"@, false, 5, seq![ProviderCapability::Text],
            keychain_account_of(AiProviderType::Ollama)),
    ]
}

/// The settings before the user has saved any: the built-in providers, with
/// OpenAI as the default for text and for transcription.
pub open spec fn builtin_settings() -> SettingsModel {
    SettingsModel {
        default_text_provider_id: Some("openai"@),
        default_transcription_provider_id: Some("openai"@),
        providers: builtin_providers(),
    }
}

fn make_builtin(
    id: &str,
    label: &str,
    t: AiProviderType,
    base_url: Option<&str>,
    model: &str,
    enabled: bool,
    priority: u32,
    transcription: bool,
    key_ref: &str,
) -> (r: ProviderConfig)
    ensures
        r@ == builtin(
            id@,
            label@,
            t,
            match base_url {
                Some(b) => Some(b@),
                None => None,
            },
            model@,
            enabled,
            priority,
            if transcription {
                seq![ProviderCapability::Text, ProviderCapability::Transcription]
            } else {
                seq![ProviderCapability::Text]
            },
            key_ref@,
        ),
{
    let mut caps: Vec<ProviderCapability> = Vec::new();
    caps.push(ProviderCapability::Text);
    if transcription {
        caps.push(ProviderCapability::Transcription);
    }
    let r = ProviderConfig {
        id: id.to_owned(),
        label: label.to_owned(),
        provider_type: t,
        base_url: match base_url {
            Some(b) => Some(b.to_owned()),
            None => None,
        },
        default_model: model.to_owned(),
        enabled,
        priority,
        capabilities: caps,
        api_key_ref: Some(key_ref.to_owned()),
    };
    assert(r@.capabilities =~= (if transcription {
        seq![ProviderCapability::Text, ProviderCapability::Transcription]
    } else {
        seq![ProviderCapability::Text]
    }));
    r
}

/// The built-in providers (see [`builtin_providers`]).
pub fn builtin_provider_list() -> (r: Vec<ProviderConfig>)
    ensures
        models(r@) == builtin_providers(),
{
    let mut v: Vec<ProviderConfig> = Vec::new();
    v.push(make_builtin("openai", "OpenAI", AiProviderType::OpenAi, Some("https://api.openai.com/v1"),
        "gpt-4o-mini", true, 0, true, keychain_account_for(AiProviderType::OpenAi)));
    v.push(make_builtin("beeknoee", "Beeknoee", AiProviderType::OpenAi,
        Some("https://platform.beeknoee.com/api/v1/chat/completions"), "gpt-4o-mini", false, 1, false,
        "ai.provider.beeknoee.apiKey"));
    v.push(make_builtin("openrouter", "OpenRouter", AiProviderType::OpenRouter,
        Some("https://openrouter.ai/api/v1"), "openai/gpt-4o-mini", false, 2, false,
        keychain_account_for(AiProviderType::OpenRouter)));
    v.push(make_builtin("anthropic", "Anthropic", AiProviderType::Anthropic, None,
        "sonnet-4-5-20250929", false, 3, false, keychain_account_for(AiProviderType::Anthropic)));
    v.push(make_builtin("gemini", "Gemini", AiProviderType::Gemini, None, "gemini-2.0-flash", false,
        4, false, keychain_account_for(AiProviderType::Gemini)));
    v.push(make_builtin("ollama", "Ollama", AiProviderType::Ollama, Some("http://localhost:11434"),
        "llama3.2", false, 5, false, keychain_account_for(AiProviderType::Ollama)));
    assert(models(v@) =~= builtin_providers());
    v
}

/// The settings before the user has saved any (see [`builtin_settings`]).
pub fn default_provider_settings() -> (r: ProviderSettings)
    ensures
        r@ == builtin_settings(),
{
    ProviderSettings {
        default_text_provider_id: Some("openai".to_owned()),
        default_transcription_provider_id: Some("openai".to_owned()),
        providers: builtin_provider_list(),
    }
}


// ───────────────────────────── normalizing saved settings ─────────────────────────────

/// A saved provider read back as if submitted at position `idx`.
pub open spec fn stored_input(c: ConfigModel, idx: int) -> InputModel {
    InputModel {
        id: Some(c.id),
        label: c.label,
        provider_type: c.provider_type,
        base_url: c.base_url,
        default_model: c.default_model,
        enabled: c.enabled,
        priority: idx as u32,
        capabilities: c.capabilities,
        api_key_ref: c.api_key_ref,
        api_key: None,
        clear_api_key: false,
    }
}

/// Saved providers made consistent again, in list order; `us[i]` is the
/// fresh UUID used if provider `i` has a blank id.
pub open spec fn renormalized(ps: Seq<ConfigModel>, us: Seq<Seq<char>>) -> Seq<ConfigModel> {
    Seq::new(
        ps.len(),
        |i: int| config_from_input(normalized_input(stored_input(ps[i], i), us[i]), Seq::empty()),
    )
}

/// Some config of `ps` has the id `id`.
pub open spec fn has_id(ps: Seq<ConfigModel>, id: Seq<char>) -> bool {
    exists|i: int| 0 <= i < ps.len() && #[trigger] ps[i].id == id
}

/// `ps` followed by those of `ds` whose id it does not have yet.
pub open spec fn add_missing(ps: Seq<ConfigModel>, ds: Seq<ConfigModel>) -> Seq<ConfigModel>
    decreases ds.len(),
{
    if ds.len() == 0 {
        ps
    } else {
        let next = if has_id(ps, ds[0].id) {
            ps
        } else {
            ps.push(ds[0])
        };
        add_missing(next, ds.drop_first())
    }
}

/// A saved default provider id, sanitized, and dropped when that leaves nothing.
pub open spec fn sanitized_default(raw: Option<Seq<char>>) -> Option<Seq<char>> {
    match raw {
        Some(v) => if sanitized_id(v).len() == 0 {
            None
        } else {
            Some(sanitized_id(v))
        },
        None => None,
    }
}

/// Saved settings made consistent: default ids sanitized, every provider
/// normalized with its list position as priority, missing built-in providers
/// added back, and the whole list in priority order.
pub open spec fn normalized_settings(m: SettingsModel, us: Seq<Seq<char>>) -> SettingsModel {
    SettingsModel {
        default_text_provider_id: sanitized_default(m.default_text_provider_id),
        default_transcription_provider_id: sanitized_default(m.default_transcription_provider_id),
        providers: by_priority(add_missing(renormalized(m.providers, us), builtin_providers())),
    }
}

fn sanitize_default(raw: &Option<String>) -> (r: Option<String>)
    ensures
        opt_chars(r) == sanitized_default(opt_chars(*raw)),
{
    match raw {
        Some(v) => {
            let s = sanitize_provider_id(v.as_str());
            if s.as_str().is_empty() {
                None
            } else {
                Some(s)
            }
        },
        None => None,
    }
}

/// Whether some config of `ps` has the id `id`.
pub fn contains_id(ps: &Vec<ProviderConfig>, id: &str) -> (r: bool)
    ensures
        r == has_id(models(ps@), id@),
{
    let mut i: usize = 0;
    while i < ps.len()
        invariant
            i <= ps.len(),
            forall|j: int| 0 <= j < i ==> ps@[j]@.id != id@,
        decreases ps.len() - i,
    {
        if str_eq(ps[i].id.as_str(), id) {
            assert(models(ps@)[i as int].id == id@);
            return true;
        }
        i = i + 1;
    }
    assert forall|j: int| 0 <= j < models(ps@).len() implies #[trigger] models(ps@)[j].id != id@ by {
        assert(models(ps@)[j] == ps@[j]@);
    }
    false
}

/// Appends the configs of `ds` whose id `ps` does not have yet.
pub fn append_missing(ps: Vec<ProviderConfig>, ds: Vec<ProviderConfig>) -> (r: Vec<ProviderConfig>)
    ensures
        models(r@) == add_missing(models(ps@), models(ds@)),
{
    let ghost dm = models(ds@);
    let mut out = ps;
    let mut rest = ds;
    let n = rest.len();
    let mut i: usize = 0;
    assert(dm.skip(0) == dm);
    while i < n
        invariant
            n == dm.len(),
            i <= n,
            models(rest@) == dm.skip(i as int),
            rest.len() == n - i,
            add_missing(models(out@), models(rest@)) == add_missing(models(ps@), dm),
        decreases n - i,
    {
        let ghost old_rest = rest@;
        let d = rest.remove(0);
        let ghost before = models(out@);
        assert(rest@ == old_rest.drop_first());
        assert(models(rest@) =~= models(old_rest).drop_first());
        assert(models(rest@) =~= dm.skip(i + 1));
        assert(dm.skip(i as int)[0] == d@);
        assert(dm.skip(i as int).drop_first() =~= dm.skip(i + 1));
        if !contains_id(&out, d.id.as_str()) {
            out.push(d);
            assert(models(out@) =~= before.push(d@));
        }
        i = i + 1;
    }
    assert(models(rest@) =~= Seq::<ConfigModel>::empty());
    out
}

/// Saved settings made consistent (see [`normalized_settings`]); providers
/// whose id is blank get a new id from their label and a fresh random UUID.
pub fn normalize_settings(settings: ProviderSettings) -> (r: ProviderSettings)
    ensures
        exists|us: Seq<Seq<char>>|
            us.len() == settings@.providers.len() && (forall|i: int|
                0 <= i < us.len() && !usable_id(Some(settings@.providers[i].id))
                    ==> is_uuid_text(#[trigger] us[i])) && r@ == normalized_settings(
                settings@,
                us,
            ),
{
    let default_text_provider_id = sanitize_default(&settings.default_text_provider_id);
    let default_transcription_provider_id = sanitize_default(
        &settings.default_transcription_provider_id,
    );
    let ghost ps = settings@.providers;
    let ghost mut us: Seq<Seq<char>> = Seq::empty();
    let mut rest = settings.providers;
    let mut out: Vec<ProviderConfig> = Vec::new();
    let n = rest.len();
    let mut idx: usize = 0;
    assert(models(rest@).skip(0) == models(rest@));
    while idx < n
        invariant
            n == ps.len(),
            idx <= n,
            models(rest@) == ps.skip(idx as int),
            rest.len() == n - idx,
            us.len() == idx,
            forall|i: int|
                0 <= i < idx && !usable_id(Some(ps[i].id)) ==> is_uuid_text(#[trigger] us[i]),
            models(out@) == Seq::new(
                idx as nat,
                |i: int| config_from_input(normalized_input(stored_input(ps[i], i), us[i]), Seq::empty()),
            ),
        decreases n - idx,
    {
        let ghost old_rest = rest@;
        let c = rest.remove(0);
        assert(rest@ == old_rest.drop_first());
        assert(models(rest@) =~= models(old_rest).drop_first());
        assert(models(rest@) =~= ps.skip(idx + 1));
        assert(ps.skip(idx as int)[0] == c@);
        let input = ProviderConfigInput {
            id: Some(c.id),
            label: c.label,
            provider_type: c.provider_type,
            base_url: c.base_url,
            default_model: c.default_model,
            enabled: c.enabled,
            priority: #[verifier::truncate] (idx as u32),
            capabilities: c.capabilities,
            api_key_ref: c.api_key_ref,
            api_key: None,
            clear_api_key: false,
        };
        assert(input@ == stored_input(ps[idx as int], idx as int));
        let norm = normalize_provider_input(input);
        let ghost u: Seq<char> = if usable_id(input@.id) {
            Seq::empty()
        } else {
            choose|u: Seq<char>| is_uuid_text(u) && norm@ == normalized_input(input@, u)
        };
        assert(norm@ == normalized_input(input@, u));
        let cfg = provider_config_from_input(&norm);
        let ghost prev = models(out@);
        out.push(cfg);
        proof {
            us = us.push(u);
        }
        assert(models(out@) =~= Seq::new(
            (idx + 1) as nat,
            |i: int| config_from_input(normalized_input(stored_input(ps[i], i), us[i]), Seq::empty()),
        )) by {
            assert(models(out@) =~= prev.push(cfg@));
        }
        idx = idx + 1;
    }
    assert(models(out@) =~= renormalized(ps, us));
    let with_builtins = append_missing(out, builtin_provider_list());
    let providers = sort_by_priority(with_builtins);
    let r = ProviderSettings {
        default_text_provider_id,
        default_transcription_provider_id,
        providers,
    };
    assert(r@ == normalized_settings(settings@, us));
    r
}


// ───────────────────────────── workspace configuration ─────────────────────────────

/// Retry settings from the workspace configuration file.
#[derive(Debug)]
pub struct WorkspaceRetryConfig {
    pub max_attempts_per_provider: Option<u32>,
    pub retry_backoff_ms: Option<u64>,
}

/// A provider declared in the workspace configuration file.
#[derive(Debug)]
pub struct WorkspaceProviderConfig {
    pub id: String,
    pub label: String,
    pub provider_type: AiProviderType,
    pub base_url: Option<String>,
    pub default_model: Option<String>,
    pub enabled: Option<bool>,
    pub priority: Option<u32>,
    pub capabilities: Vec<ProviderCapability>,
    pub api_key_ref: Option<String>,
    pub api_key: Option<String>,
}

/// The `ai` section of the workspace configuration file.
#[derive(Debug)]
pub struct WorkspaceAiConfig {
    pub retry: WorkspaceRetryConfig,
    pub default_text_provider_id: Option<String>,
    pub default_transcription_provider_id: Option<String>,
    pub providers: Vec<WorkspaceProviderConfig>,
}

/// The workspace configuration file.
#[derive(Debug)]
pub struct WorkspaceConfigFile {
    pub ai: WorkspaceAiConfig,
}

impl WorkspaceConfigFile {
    /// The configuration used when the workspace has no file: nothing set.
    pub fn empty() -> (r: Self)
        ensures
            r.ai.retry.max_attempts_per_provider is None,
            r.ai.retry.retry_backoff_ms is None,
            r.ai.default_text_provider_id is None,
            r.ai.default_transcription_provider_id is None,
            r.ai.providers@.len() == 0,
    {
        WorkspaceConfigFile {
            ai: WorkspaceAiConfig {
                retry: WorkspaceRetryConfig { max_attempts_per_provider: None, retry_backoff_ms: None },
                default_text_provider_id: None,
                default_transcription_provider_id: None,
                providers: Vec::new(),
            },
        }
    }
}

/// The contents of a [`WorkspaceProviderConfig`].
pub struct WorkspaceProviderModel {
    pub id: Seq<char>,
    pub label: Seq<char>,
    pub provider_type: AiProviderType,
    pub base_url: Option<Seq<char>>,
    pub default_model: Option<Seq<char>>,
    pub enabled: Option<bool>,
    pub priority: Option<u32>,
    pub capabilities: Seq<ProviderCapability>,
    pub api_key_ref: Option<Seq<char>>,
    pub api_key: Option<Seq<char>>,
}

impl View for WorkspaceProviderConfig {
    type V = WorkspaceProviderModel;

    open spec fn view(&self) -> WorkspaceProviderModel {
        WorkspaceProviderModel {
            id: self.id@,
            label: self.label@,
            provider_type: self.provider_type,
            base_url: opt_chars(self.base_url),
            default_model: opt_chars(self.default_model),
            enabled: self.enabled,
            priority: self.priority,
            capabilities: self.capabilities@,
            api_key_ref: opt_chars(self.api_key_ref),
            api_key: opt_chars(self.api_key),
        }
    }
}

/// The contents of a list of workspace providers.
pub open spec fn workspace_models(s: Seq<WorkspaceProviderConfig>) -> Seq<WorkspaceProviderModel> {
    s.map_values(|p: WorkspaceProviderConfig| p@)
}

/// The config a workspace provider stands for: id sanitized, label and base
/// URL trimmed, enabled unless it says otherwise, priority 0 unless given,
/// the text capability when it lists none, and a key reference
/// (`ai.provider.<id>.apiKey` unless given).
pub open spec fn workspace_config(p: WorkspaceProviderModel) -> ConfigModel {
    ConfigModel {
        id: sanitized_id(p.id),
        label: trim_ws(p.label),
        provider_type: p.provider_type,
        base_url: trimmed_opt(p.base_url),
        default_model: match p.default_model {
            Some(m) => m,
            None => default_model_of(p.provider_type),
        },
        enabled: match p.enabled {
            Some(e) => e,
            None => true,
        },
        priority: match p.priority {
            Some(n) => n,
            None => 0,
        },
        capabilities: if p.capabilities.len() == 0 {
            seq![ProviderCapability::Text]
        } else {
            p.capabilities
        },
        api_key_ref: Some(
            match p.api_key_ref {
                Some(r) => r,
                None => default_key_ref(sanitized_id(p.id)),
            },
        ),
    }
}

/// The position of the first config with id `id`.
pub open spec fn index_of_id(ps: Seq<ConfigModel>, id: Seq<char>) -> Option<int>
    decreases ps.len(),
{
    if ps.len() == 0 {
        None
    } else {
        match index_of_id(ps.drop_last(), id) {
            Some(i) => Some(i),
            None => if ps.last().id == id {
                Some(ps.len() - 1)
            } else {
                None
            },
        }
    }
}

/// `c` in place of the first config with its id, or appended when none has it.
pub open spec fn upsert(ps: Seq<ConfigModel>, c: ConfigModel) -> Seq<ConfigModel> {
    match index_of_id(ps, c.id) {
        Some(i) => ps.update(i, c),
        None => ps.push(c),
    }
}

/// Every config of `cs` upserted into `ps`, in order.
pub open spec fn upsert_all(ps: Seq<ConfigModel>, cs: Seq<ConfigModel>) -> Seq<ConfigModel>
    decreases cs.len(),
{
    if cs.len() == 0 {
        ps
    } else {
        upsert_all(upsert(ps, cs[0]), cs.drop_first())
    }
}

/// Settings with the workspace configuration laid over them: its default
/// ids (sanitized) win, and when it declares providers they replace the
/// providers of the same id or are added, and the list is put in priority order.
pub open spec fn merged_settings(
    m: SettingsModel,
    default_text: Option<Seq<char>>,
    default_transcription: Option<Seq<char>>,
    ws: Seq<WorkspaceProviderModel>,
) -> SettingsModel {
    SettingsModel {
        default_text_provider_id: match default_text {
            Some(v) => Some(sanitized_id(v)),
            None => m.default_text_provider_id,
        },
        default_transcription_provider_id: match default_transcription {
            Some(v) => Some(sanitized_id(v)),
            None => m.default_transcription_provider_id,
        },
        providers: if ws.len() == 0 {
            m.providers
        } else {
            by_priority(
                upsert_all(m.providers, ws.map_values(|p: WorkspaceProviderModel| workspace_config(p))),
            )
        },
    }
}

/// The config a workspace provider stands for (see [`workspace_config`]).
pub fn config_from_workspace(p: &WorkspaceProviderConfig) -> (r: ProviderConfig)
    ensures
        r@ == workspace_config(p@),
{
    let id = sanitize_provider_id(p.id.as_str());
    let default_model = match &p.default_model {
        Some(m) => m.clone(),
        None => default_model_for(p.provider_type).to_owned(),
    };
    let capabilities = if p.capabilities.len() == 0 {
        let mut v: Vec<ProviderCapability> = Vec::new();
        v.push(ProviderCapability::Text);
        v
    } else {
        copy_capabilities(&p.capabilities)
    };
    let api_key_ref = match &p.api_key_ref {
        Some(r) => r.clone(),
        None => default_key_ref_for(id.as_str()),
    };
    let r = ProviderConfig {
        id,
        label: trim(p.label.as_str()),
        provider_type: p.provider_type,
        base_url: sanitize_optional(copy_opt_string(&p.base_url)),
        default_model,
        enabled: match p.enabled {
            Some(e) => e,
            None => true,
        },
        priority: match p.priority {
            Some(n) => n,
            None => 0,
        },
        capabilities,
        api_key_ref: Some(api_key_ref),
    };
    assert(r@.capabilities =~= workspace_config(p@).capabilities);
    r
}

fn find_id(ps: &Vec<ProviderConfig>, id: &str) -> (r: Option<usize>)
    ensures
        match r {
            Some(i) => index_of_id(models(ps@), id@) == Some(i as int) && i < ps.len(),
            None => index_of_id(models(ps@), id@) is None,
        },
{
    let mut i: usize = 0;
    while i < ps.len()
        invariant
            i <= ps.len(),
            index_of_id(models(ps@).take(i as int), id@) is None,
        decreases ps.len() - i,
    {
        let ghost t = models(ps@).take(i + 1);
        assert(t.drop_last() == models(ps@).take(i as int));
        assert(t.last() == ps@[i as int]@);
        if str_eq(ps[i].id.as_str(), id) {
            proof {
                lemma_index_of_id_prefix(models(ps@), id@, i + 1);
            }
            return Some(i);
        }
        i = i + 1;
    }
    assert(models(ps@).take(ps.len() as int) == models(ps@));
    None
}

proof fn lemma_index_of_id_prefix(ps: Seq<ConfigModel>, id: Seq<char>, k: int)
    requires
        0 <= k <= ps.len(),
        index_of_id(ps.take(k), id) is Some,
    ensures
        index_of_id(ps, id) == index_of_id(ps.take(k), id),
    decreases ps.len() - k,
{
    if k < ps.len() {
        assert(ps.take(k + 1).drop_last() == ps.take(k));
        lemma_index_of_id_prefix(ps, id, k + 1);
    } else {
        assert(ps.take(k) == ps);
    }
}

/// Lays the workspace configuration over `settings` (see [`merged_settings`]).
/// API keys that the workspace file carries are not stored here: see
/// [`workspace_key_writes`].
pub fn merge_workspace_config(settings: &mut ProviderSettings, ws: &WorkspaceAiConfig)
    ensures
        final(settings)@ == merged_settings(
            old(settings)@,
            opt_chars(ws.default_text_provider_id),
            opt_chars(ws.default_transcription_provider_id),
            workspace_models(ws.providers@),
        ),
{
    if let Some(id) = &ws.default_text_provider_id {
        settings.default_text_provider_id = Some(sanitize_provider_id(id.as_str()));
    }
    if let Some(id) = &ws.default_transcription_provider_id {
        settings.default_transcription_provider_id = Some(sanitize_provider_id(id.as_str()));
    }
    if ws.providers.len() == 0 {
        return;
    }
    let ghost wm = workspace_models(ws.providers@);
    let ghost cs = wm.map_values(|p: WorkspaceProviderModel| workspace_config(p));
    let ghost start = models(settings.providers@);
    let mut ps: Vec<ProviderConfig> = Vec::new();
    std::mem::swap(&mut ps, &mut settings.providers);
    let mut i: usize = 0;
    assert(cs.skip(0) == cs);
    while i < ws.providers.len()
        invariant
            i <= ws.providers.len(),
            wm == workspace_models(ws.providers@),
            cs == wm.map_values(|p: WorkspaceProviderModel| workspace_config(p)),
            upsert_all(models(ps@), cs.skip(i as int)) == upsert_all(start, cs),
        decreases ws.providers.len() - i,
    {
        let config = config_from_workspace(&ws.providers[i]);
        assert(cs.skip(i as int)[0] == config@);
        assert(cs.skip(i as int).drop_first() =~= cs.skip(i + 1));
        let ghost before = models(ps@);
        match find_id(&ps, config.id.as_str()) {
            Some(j) => {
                ps.set(j, config);
                assert(models(ps@) =~= before.update(j as int, config@));
            },
            None => {
                ps.push(config);
                assert(models(ps@) =~= before.push(config@));
            },
        }
        i = i + 1;
    }
    assert(cs.skip(ws.providers.len() as int) =~= Seq::<ConfigModel>::empty());
    settings.providers = sort_by_priority(ps);
}

/// The API keys a workspace file carries, to be stored before its providers
/// are merged: for each provider with a non-blank key, in order, its key
/// reference and the key.
pub open spec fn workspace_key_writes_of(ws: Seq<WorkspaceProviderModel>) -> Seq<(Seq<char>, Seq<char>)> {
    ws.filter(|p: WorkspaceProviderModel| p.api_key matches Some(k) && !is_blank(k)).map_values(
        |p: WorkspaceProviderModel| (key_ref_of(workspace_config(p)), p.api_key->0),
    )
}

/// The (key reference, key) pairs to store for a workspace configuration
/// (see [`workspace_key_writes_of`]).
pub fn workspace_key_writes(ws: &WorkspaceAiConfig) -> (r: Vec<(String, String)>)
    ensures
        r@.map_values(|w: (String, String)| (w.0@, w.1@)) == workspace_key_writes_of(
            workspace_models(ws.providers@),
        ),
{
    let ghost wm = workspace_models(ws.providers@);
    let ghost pred = |p: WorkspaceProviderModel| p.api_key matches Some(k) && !is_blank(k);
    let ghost f = |p: WorkspaceProviderModel| (key_ref_of(workspace_config(p)), p.api_key->0);
    let ghost g = |w: (String, String)| (w.0@, w.1@);
    let mut out: Vec<(String, String)> = Vec::new();
    let mut i: usize = 0;
    while i < ws.providers.len()
        invariant
            i <= ws.providers.len(),
            wm == workspace_models(ws.providers@),
            pred == (|p: WorkspaceProviderModel| p.api_key matches Some(k) && !is_blank(k)),
            f == (|p: WorkspaceProviderModel| (key_ref_of(workspace_config(p)), p.api_key->0)),
            g == (|w: (String, String)| (w.0@, w.1@)),
            out@.map_values(g) == wm.take(i as int).filter(pred).map_values(f),
        decreases ws.providers.len() - i,
    {
        let p = &ws.providers[i];
        let ghost prefix = wm.take(i as int);
        assert(wm.take(i + 1) == prefix.push(p@));
        reveal(Seq::filter);
        assert(prefix.push(p@).drop_last() == prefix);
        let ghost before = out@;
        match &p.api_key {
            Some(k) => {
                if !blank(k.as_str()) {
                    let config = config_from_workspace(p);
                    let key_ref = config.api_key_ref();
                    out.push((key_ref, k.clone()));
                    assert(out@.map_values(g) =~= before.map_values(g).push(f(p@)));
                    assert(prefix.push(p@).filter(pred) == prefix.filter(pred).push(p@));
                    assert(prefix.filter(pred).push(p@).map_values(f) =~= prefix.filter(pred).map_values(
                        f,
                    ).push(f(p@)));
                }
            },
            None => {},
        }
        i = i + 1;
    }
    assert(wm.take(ws.providers.len() as int) == wm);
    out
}


// ───────────────────────────── the settings view ─────────────────────────────

/// A provider as the settings screen shows it.
#[derive(Debug)]
pub struct ProviderConfigView {
    pub id: String,
    pub label: String,
    pub provider_type: AiProviderType,
    pub base_url: Option<String>,
    pub default_model: String,
    pub enabled: bool,
    pub priority: u32,
    pub capabilities: Vec<ProviderCapability>,
    pub api_key_ref: String,
    pub has_api_key: bool,
}

/// The contents of a [`ProviderConfigView`].
pub struct ShownProvider {
    pub id: Seq<char>,
    pub label: Seq<char>,
    pub provider_type: AiProviderType,
    pub base_url: Option<Seq<char>>,
    pub default_model: Seq<char>,
    pub enabled: bool,
    pub priority: u32,
    pub capabilities: Seq<ProviderCapability>,
    pub api_key_ref: Seq<char>,
    pub has_api_key: bool,
}

impl View for ProviderConfigView {
    type V = ShownProvider;

    open spec fn view(&self) -> ShownProvider {
        ShownProvider {
            id: self.id@,
            label: self.label@,
            provider_type: self.provider_type,
            base_url: opt_chars(self.base_url),
            default_model: self.default_model@,
            enabled: self.enabled,
            priority: self.priority,
            capabilities: self.capabilities@,
            api_key_ref: self.api_key_ref@,
            has_api_key: self.has_api_key,
        }
    }
}

/// The contents of a list of shown providers.
pub open spec fn shown_models(s: Seq<ProviderConfigView>) -> Seq<ShownProvider> {
    s.map_values(|p: ProviderConfigView| p@)
}

/// The settings as the settings screen shows them.
#[derive(Debug)]
pub struct ProviderSettingsView {
    pub providers: Vec<ProviderConfigView>,
    pub default_text_provider_id: Option<String>,
    pub default_text_model: Option<String>,
    pub default_transcription_provider_id: Option<String>,
    pub default_transcription_model: Option<String>,
}

/// Families that need no API key: local servers and on-device models.
pub open spec fn keyless(t: AiProviderType) -> bool {
    t == AiProviderType::Ollama || t == AiProviderType::Mlx || t == AiProviderType::AppleIntelligence
}

/// A config as shown, given the key references that have a stored key.
pub open spec fn shown_provider(c: ConfigModel, stored: Seq<Seq<char>>) -> ShownProvider {
    ShownProvider {
        id: c.id,
        label: c.label,
        provider_type: c.provider_type,
        base_url: c.base_url,
        default_model: c.default_model,
        enabled: c.enabled,
        priority: c.priority,
        capabilities: c.capabilities,
        api_key_ref: key_ref_of(c),
        has_api_key: keyless(c.provider_type) || stored.contains(key_ref_of(c)),
    }
}

/// A shown provider can serve `capability` now: enabled, able, and (for text
/// and transcription) with an API key.
pub open spec fn ready_for(p: ShownProvider, capability: ProviderCapability) -> bool {
    &&& p.enabled
    &&& p.capabilities.contains(capability)
    &&& match capability {
        ProviderCapability::Text | ProviderCapability::Transcription => p.has_api_key,
        _ => true,
    }
}

/// The default provider for a capability: the preferred one if it is ready,
/// else the first ready one.
pub open spec fn resolved_default(
    ps: Seq<ShownProvider>,
    preferred: Option<Seq<char>>,
    capability: ProviderCapability,
) -> Option<ShownProvider> {
    let first_ready = find_first(ps, |p: ShownProvider| ready_for(p, capability));
    match preferred {
        Some(id) => match find_first(ps, |p: ShownProvider| p.id == id && ready_for(p, capability)) {
            Some(x) => Some(x),
            None => first_ready,
        },
        None => first_ready,
    }
}

/// The transcription model shown for a provider: `whisper-1` for OpenAI,
/// else its default model.
pub open spec fn shown_transcription_model(p: ShownProvider) -> Seq<char> {
    if p.provider_type == AiProviderType::OpenAi {
        "whisper-1"@
    } else {
        p.default_model
    }
}

/// Whether a shown provider can serve `capability` now (see [`ready_for`]).
pub fn provider_is_ready_for_capability(provider: &ProviderConfigView, capability: ProviderCapability) -> (r: bool)
    ensures
        r == ready_for(provider@, capability),
{
    provider.enabled && has_capability(&provider.capabilities, capability) && match capability {
        ProviderCapability::Text | ProviderCapability::Transcription => provider.has_api_key,
        _ => true,
    }
}

/// The transcription model shown for a provider (see [`shown_transcription_model`]).
pub fn default_transcription_model_for_view(provider: &ProviderConfigView) -> (r: String)
    ensures
        r@ == shown_transcription_model(provider@),
{
    match provider.provider_type {
        AiProviderType::OpenAi => "whisper-1".to_owned(),
        _ => provider.default_model.clone(),
    }
}

fn copy_shown(p: &ProviderConfigView) -> (r: ProviderConfigView)
    ensures
        r@ == p@,
{
    ProviderConfigView {
        id: p.id.clone(),
        label: p.label.clone(),
        provider_type: p.provider_type,
        base_url: copy_opt_string(&p.base_url),
        default_model: p.default_model.clone(),
        enabled: p.enabled,
        priority: p.priority,
        capabilities: copy_capabilities(&p.capabilities),
        api_key_ref: p.api_key_ref.clone(),
        has_api_key: p.has_api_key,
    }
}

fn first_ready(providers: &Vec<ProviderConfigView>, preferred_id: Option<&str>, capability: ProviderCapability) -> (r: Option<ProviderConfigView>)
    ensures
        match preferred_id {
            Some(id) => match (r, find_first(shown_models(providers@), |p: ShownProvider| p.id == id@ && ready_for(p, capability))) {
                (Some(x), Some(y)) => x@ == y,
                (None, None) => true,
                _ => false,
            },
            None => match (r, find_first(shown_models(providers@), |p: ShownProvider| ready_for(p, capability))) {
                (Some(x), Some(y)) => x@ == y,
                (None, None) => true,
                _ => false,
            },
        },
{
    let ghost s = shown_models(providers@);
    let ghost pred = match preferred_id {
        Some(id) => |p: ShownProvider| p.id == id@ && ready_for(p, capability),
        None => |p: ShownProvider| ready_for(p, capability),
    };
    let mut i: usize = 0;
    assert(s.skip(0) == s);
    while i < providers.len()
        invariant
            i <= providers.len(),
            s == shown_models(providers@),
            pred == (match preferred_id {
                Some(id) => |p: ShownProvider| p.id == id@ && ready_for(p, capability),
                None => |p: ShownProvider| ready_for(p, capability),
            }),
            find_first(s.skip(i as int), pred) == find_first(s, pred),
        decreases providers.len() - i,
    {
        let p = &providers[i];
        assert(s[i as int] == p@);
        let hit = match preferred_id {
            Some(id) => str_eq(p.id.as_str(), id) && provider_is_ready_for_capability(p, capability),
            None => provider_is_ready_for_capability(p, capability),
        };
        assert(hit == pred(p@));
        if hit {
            proof {
                lemma_find_first_hit(s, pred, i as int);
            }
            return Some(copy_shown(p));
        }
        proof {
            lemma_find_first_skip(s, pred, i as int);
        }
        i = i + 1;
    }
    proof {
        lemma_find_first_end(s, pred);
    }
    None
}

/// The default provider for a capability (see [`resolved_default`]).
pub fn resolve_default_provider(
    providers: &Vec<ProviderConfigView>,
    preferred_id: Option<&str>,
    capability: ProviderCapability,
) -> (r: Option<ProviderConfigView>)
    ensures
        match (r, resolved_default(shown_models(providers@), match preferred_id {
            Some(id) => Some(id@),
            None => None,
        }, capability)) {
            (Some(x), Some(y)) => x@ == y,
            (None, None) => true,
            _ => false,
        },
{
    match preferred_id {
        Some(id) => {
            match first_ready(providers, Some(id), capability) {
                Some(x) => Some(x),
                None => first_ready(providers, None, capability),
            }
        },
        None => first_ready(providers, None, capability),
    }
}


/// The id of an optional shown provider.
pub open spec fn shown_id(p: Option<ShownProvider>) -> Option<Seq<char>> {
    match p {
        Some(x) => Some(x.id),
        None => None,
    }
}

/// The providers of `m` as shown, in priority order.
pub open spec fn shown_providers(m: SettingsModel, stored: Seq<Seq<char>>) -> Seq<ShownProvider> {
    by_priority(m.providers).map_values(|c: ConfigModel| shown_provider(c, stored))
}

/// Whether `list` holds the string `s`.
pub fn contains_string(list: &Vec<String>, s: &str) -> (r: bool)
    ensures
        r == strings_view(list@).contains(s@),
{
    let mut i: usize = 0;
    while i < list.len()
        invariant
            i <= list.len(),
            forall|j: int| 0 <= j < i ==> list@[j]@ != s@,
        decreases list.len() - i,
    {
        if str_eq(list[i].as_str(), s) {
            assert(strings_view(list@)[i as int] == s@);
            return true;
        }
        i = i + 1;
    }
    assert forall|j: int| 0 <= j < strings_view(list@).len() implies strings_view(list@)[j] != s@ by {
        assert(strings_view(list@)[j] == list@[j]@);
    }
    false
}

/// A config as shown (see [`shown_provider`]).
pub fn show_provider(cfg: &ProviderConfig, stored_key_refs: &Vec<String>) -> (r: ProviderConfigView)
    ensures
        r@ == shown_provider(cfg@, strings_view(stored_key_refs@)),
{
    let api_key_ref = cfg.api_key_ref();
    let has_api_key = match cfg.provider_type {
        AiProviderType::Ollama | AiProviderType::Mlx | AiProviderType::AppleIntelligence => true,
        _ => contains_string(stored_key_refs, api_key_ref.as_str()),
    };
    ProviderConfigView {
        id: cfg.id.clone(),
        label: cfg.label.clone(),
        provider_type: cfg.provider_type,
        base_url: copy_opt_string(&cfg.base_url),
        default_model: cfg.default_model.clone(),
        enabled: cfg.enabled,
        priority: cfg.priority,
        capabilities: copy_capabilities(&cfg.capabilities),
        api_key_ref,
        has_api_key,
    }
}

/// The settings as the settings screen shows them: the providers in
/// priority order with their key status (`stored_key_refs` lists the key
/// references that have a stored key), and the default provider and model for
/// text and for transcription (see [`resolved_default`]).
pub fn view_from_settings(settings: &ProviderSettings, stored_key_refs: &Vec<String>) -> (r:
    ProviderSettingsView)
    ensures
        ({
            let shown = shown_providers(settings@, strings_view(stored_key_refs@));
            let text = resolved_default(shown, settings@.default_text_provider_id, ProviderCapability::Text);
            let tr = resolved_default(
                shown,
                settings@.default_transcription_provider_id,
                ProviderCapability::Transcription,
            );
            &&& shown_models(r.providers@) == shown
            &&& opt_chars(r.default_text_provider_id) == shown_id(text)
            &&& opt_chars(r.default_text_model) == match text {
                Some(x) => Some(x.default_model),
                None => None,
            }
            &&& opt_chars(r.default_transcription_provider_id) == shown_id(tr)
            &&& opt_chars(r.default_transcription_model) == match tr {
                Some(x) => Some(shown_transcription_model(x)),
                None => None,
            }
        }),
{
    let sorted = settings.sorted_providers();
    let ghost stored = strings_view(stored_key_refs@);
    let ghost target = shown_providers(settings@, stored);
    let mut providers: Vec<ProviderConfigView> = Vec::new();
    let mut i: usize = 0;
    while i < sorted.len()
        invariant
            i <= sorted.len(),
            stored == strings_view(stored_key_refs@),
            models(sorted@) == by_priority(settings@.providers),
            target == shown_providers(settings@, stored),
            shown_models(providers@) == target.take(i as int),
            providers.len() == i,
        decreases sorted.len() - i,
    {
        let v = show_provider(&sorted[i], stored_key_refs);
        let ghost before = providers@;
        providers.push(v);
        assert(providers@ == before.push(v));
        assert(shown_models(providers@) =~= shown_models(before).push(v@));
        assert(models(sorted@)[i as int] == sorted@[i as int]@);
        assert(target[i as int] == shown_provider(models(sorted@)[i as int], stored));
        assert(target.take(i + 1) =~= target.take(i as int).push(target[i as int]));
        i = i + 1;
    }
    assert(target.take(sorted.len() as int) =~= target);
    let text = match &settings.default_text_provider_id {
        Some(id) => resolve_default_provider(&providers, Some(id.as_str()), ProviderCapability::Text),
        None => resolve_default_provider(&providers, None, ProviderCapability::Text),
    };
    let tr = match &settings.default_transcription_provider_id {
        Some(id) => resolve_default_provider(&providers, Some(id.as_str()), ProviderCapability::Transcription),
        None => resolve_default_provider(&providers, None, ProviderCapability::Transcription),
    };
    let default_text_provider_id = match &text {
        Some(x) => Some(x.id.clone()),
        None => None,
    };
    let default_text_model = match &text {
        Some(x) => Some(x.default_model.clone()),
        None => None,
    };
    let default_transcription_provider_id = match &tr {
        Some(x) => Some(x.id.clone()),
        None => None,
    };
    let default_transcription_model = match &tr {
        Some(x) => Some(default_transcription_model_for_view(x)),
        None => None,
    };
    ProviderSettingsView {
        providers,
        default_text_provider_id,
        default_text_model,
        default_transcription_provider_id,
        default_transcription_model,
    }
}

/// An enabled provider that can do the job.
pub open spec fn fits_capability(p: InputModel, capability: ProviderCapability) -> bool {
    p.enabled && p.capabilities.contains(capability)
}

/// The id kept as a saved default: the requested one (sanitized) when an
/// enabled provider with that id can do the job, else the id of the first
/// enabled provider that can (which may have no id), else none.
pub open spec fn chosen_default_id(
    raw: Option<Seq<char>>,
    ps: Seq<InputModel>,
    capability: ProviderCapability,
) -> Option<Seq<char>> {
    let fallback = match find_first(ps, |p: InputModel| fits_capability(p, capability)) {
        Some(p) => p.id,
        None => None,
    };
    match raw {
        Some(v) => if exists|i: int|
            0 <= i < ps.len() && #[trigger] fits_capability(ps[i], capability) && ps[i].id == Some(
                sanitized_id(v),
            ) {
            Some(sanitized_id(v))
        } else {
            fallback
        },
        None => fallback,
    }
}

/// The id kept as a saved default (see [`chosen_default_id`]).
pub fn normalize_default_provider_id(
    raw_id: Option<&str>,
    providers: &Vec<ProviderConfigInput>,
    capability: ProviderCapability,
) -> (r: Option<String>)
    ensures
        opt_chars(r) == chosen_default_id(
            match raw_id {
                Some(v) => Some(v@),
                None => None,
            },
            input_models(providers@),
            capability,
        ),
{
    let ghost ps = input_models(providers@);
    let ghost fits = |p: InputModel| fits_capability(p, capability);
    if let Some(raw) = raw_id {
        let id = sanitize_provider_id(raw);
        let mut i: usize = 0;
        while i < providers.len()
            invariant
                i <= providers.len(),
                ps == input_models(providers@),
                raw_id == Some(raw),
                id@ == sanitized_id(raw@),
                forall|j: int|
                    0 <= j < i ==> !(#[trigger] fits_capability(ps[j], capability) && ps[j].id == Some(
                        id@,
                    )),
            decreases providers.len() - i,
        {
            let p = &providers[i];
            assert(ps[i as int] == p@);
            let same = match &p.id {
                Some(pid) => str_eq(pid.as_str(), id.as_str()),
                None => false,
            };
            if p.enabled && same && has_capability(&p.capabilities, capability) {
                assert(fits_capability(ps[i as int], capability) && ps[i as int].id == Some(id@));
                return Some(id);
            }
            i = i + 1;
        }
    }
    let mut k: usize = 0;
    assert(ps.skip(0) == ps);
    while k < providers.len()
        invariant
            k <= providers.len(),
            ps == input_models(providers@),
            fits == (|p: InputModel| fits_capability(p, capability)),
            find_first(ps.skip(k as int), fits) == find_first(ps, fits),
            match raw_id {
                Some(v) => !exists|i: int|
                    0 <= i < ps.len() && #[trigger] fits_capability(ps[i], capability) && ps[i].id
                        == Some(sanitized_id(v@)),
                None => true,
            },
        decreases providers.len() - k,
    {
        let p = &providers[k];
        assert(ps[k as int] == p@);
        if p.enabled && has_capability(&p.capabilities, capability) {
            proof {
                lemma_find_first_hit(ps, fits, k as int);
            }
            return copy_opt_string(&p.id);
        }
        proof {
            lemma_find_first_skip(ps, fits, k as int);
        }
        k = k + 1;
    }
    proof {
        lemma_find_first_end(ps, fits);
    }
    None
}


// ───────────────────────────── saving settings ─────────────────────────────

/// The settings form as submitted.
#[derive(Debug)]
pub struct ProviderSettingsInput {
    pub default_text_provider_id: Option<String>,
    pub default_transcription_provider_id: Option<String>,
    pub providers: Vec<ProviderConfigInput>,
}

/// A change to the keychain that saving settings asks for.
#[derive(Debug)]
pub enum KeyAction {
    /// Remove the key stored under this reference (a failure is ignored).
    Delete(String),
    /// Store this key under this reference (a failure aborts the save).
    Store(String, String),
}

/// The contents of a [`KeyAction`].
pub enum KeyActionModel {
    Delete(Seq<char>),
    Store(Seq<char>, Seq<char>),
}

impl View for KeyAction {
    type V = KeyActionModel;

    open spec fn view(&self) -> KeyActionModel {
        match self {
            KeyAction::Delete(r) => KeyActionModel::Delete(r@),
            KeyAction::Store(r, k) => KeyActionModel::Store(r@, k@),
        }
    }
}

/// What saving a submitted form amounts to: the settings to write and the
/// keychain changes to make first, in order.
#[derive(Debug)]
pub struct SavePlan {
    pub settings: ProviderSettings,
    pub key_actions: Vec<KeyAction>,
}

/// A submitted provider, normalized, at position `idx` of the form.
pub open spec fn submitted_input(m: InputModel, idx: int, fresh: Seq<char>) -> InputModel {
    InputModel { priority: idx as u32, ..normalized_input(m, fresh) }
}

/// A built-in provider as if submitted at position `idx`.
pub open spec fn builtin_input(c: ConfigModel, idx: int) -> InputModel {
    InputModel {
        id: Some(c.id),
        label: c.label,
        provider_type: c.provider_type,
        base_url: c.base_url,
        default_model: c.default_model,
        enabled: c.enabled,
        priority: idx as u32,
        capabilities: c.capabilities,
        api_key_ref: c.api_key_ref,
        api_key: None,
        clear_api_key: false,
    }
}

/// The providers that get saved: the submitted ones normalized (`us[i]` is
/// the fresh UUID used if provider `i` has no usable id) with their form
/// position as priority, or the built-in ones when the form lists none.
pub open spec fn saved_inputs(ps: Seq<InputModel>, us: Seq<Seq<char>>) -> Seq<InputModel> {
    if ps.len() == 0 {
        Seq::new(builtin_providers().len(), |i: int| builtin_input(builtin_providers()[i], i))
    } else {
        Seq::new(ps.len(), |i: int| submitted_input(ps[i], i, us[i]))
    }
}

/// The keychain change a saved provider asks for, if any.
pub open spec fn key_action_of(p: InputModel) -> Option<KeyActionModel> {
    let r = key_ref_of(config_from_input(p, Seq::empty()));
    if p.clear_api_key {
        Some(KeyActionModel::Delete(r))
    } else {
        match p.api_key {
            Some(k) => if !is_blank(k) {
                Some(KeyActionModel::Store(r, k))
            } else {
                None
            },
            None => None,
        }
    }
}

/// The keychain changes for a list of saved providers, in order.
pub open spec fn key_actions_of(ps: Seq<InputModel>) -> Seq<KeyActionModel>
    decreases ps.len(),
{
    if ps.len() == 0 {
        Seq::empty()
    } else {
        let rest = key_actions_of(ps.drop_last());
        match key_action_of(ps.last()) {
            Some(a) => rest.push(a),
            None => rest,
        }
    }
}

/// The settings that saving writes, given the providers that get saved.
pub open spec fn saved_settings(
    default_text: Option<Seq<char>>,
    default_transcription: Option<Seq<char>>,
    inputs: Seq<InputModel>,
) -> SettingsModel {
    SettingsModel {
        default_text_provider_id: chosen_default_id(default_text, inputs, ProviderCapability::Text),
        default_transcription_provider_id: chosen_default_id(
            default_transcription,
            inputs,
            ProviderCapability::Transcription,
        ),
        providers: inputs.map_values(|p: InputModel| config_from_input(p, Seq::empty())),
    }
}

/// What saving a submitted form amounts to (see [`saved_inputs`],
/// [`saved_settings`] and [`key_actions_of`]); submitted providers without a
/// usable id get one made from their label and a fresh random UUID.
pub fn plan_saved_settings(input: ProviderSettingsInput) -> (r: SavePlan)
    ensures
        exists|us: Seq<Seq<char>>| #![trigger saved_inputs(input_models(input.providers@), us)] {
            let inputs = saved_inputs(input_models(input.providers@), us);
            &&& us.len() == input.providers@.len()
            &&& forall|i: int|
                0 <= i < us.len() && !usable_id(input.providers@[i]@.id) ==> is_uuid_text(
                    #[trigger] us[i],
                )
            &&& r.settings@ == saved_settings(
                opt_chars(input.default_text_provider_id),
                opt_chars(input.default_transcription_provider_id),
                inputs,
            )
            &&& r.key_actions@.map_values(|a: KeyAction| a@) == key_actions_of(inputs)
        },
{
    let ghost ps = input_models(input.providers@);
    let ghost mut us: Seq<Seq<char>> = Seq::empty();
    let mut rest = input.providers;
    let mut providers: Vec<ProviderConfigInput> = Vec::new();
    let n = rest.len();
    let mut idx: usize = 0;
    assert(input_models(rest@).skip(0) == input_models(rest@));
    while idx < n
        invariant
            n == ps.len(),
            idx <= n,
            input_models(rest@) == ps.skip(idx as int),
            rest.len() == n - idx,
            us.len() == idx,
            forall|i: int| 0 <= i < idx && !usable_id(ps[i].id) ==> is_uuid_text(#[trigger] us[i]),
            input_models(providers@) == Seq::new(
                idx as nat,
                |i: int| submitted_input(ps[i], i, us[i]),
            ),
        decreases n - idx,
    {
        let ghost old_rest = rest@;
        let p = rest.remove(0);
        assert(rest@ == old_rest.drop_first());
        assert(input_models(rest@) =~= input_models(old_rest).drop_first());
        assert(input_models(rest@) =~= ps.skip(idx + 1));
        assert(ps.skip(idx as int)[0] == p@);
        let ghost pm = p@;
        let mut norm = normalize_provider_input(p);
        let ghost u: Seq<char> = if usable_id(pm.id) {
            Seq::empty()
        } else {
            choose|u: Seq<char>| is_uuid_text(u) && norm@ == normalized_input(pm, u)
        };
        assert(norm@ == normalized_input(pm, u));
        norm.priority = #[verifier::truncate] (idx as u32);
        let ghost before = providers@;
        providers.push(norm);
        proof {
            us = us.push(u);
        }
        assert(input_models(providers@) =~= Seq::new(
            (idx + 1) as nat,
            |i: int| submitted_input(ps[i], i, us[i]),
        )) by {
            assert(input_models(providers@) =~= input_models(before).push(norm@));
        }
        idx = idx + 1;
    }
    if providers.len() == 0 {
        let builtins = builtin_provider_list();
        let mut j: usize = 0;
        while j < builtins.len()
            invariant
                j <= builtins.len(),
                models(builtins@) == builtin_providers(),
                input_models(providers@) == Seq::new(
                    j as nat,
                    |i: int| builtin_input(builtin_providers()[i], i),
                ),
            decreases builtins.len() - j,
        {
            let c = &builtins[j];
            assert(models(builtins@)[j as int] == c@);
            let bi = ProviderConfigInput {
                id: Some(c.id.clone()),
                label: c.label.clone(),
                provider_type: c.provider_type,
                base_url: copy_opt_string(&c.base_url),
                default_model: c.default_model.clone(),
                enabled: c.enabled,
                priority: #[verifier::truncate] (j as u32),
                capabilities: copy_capabilities(&c.capabilities),
                api_key_ref: copy_opt_string(&c.api_key_ref),
                api_key: None,
                clear_api_key: false,
            };
            let ghost before = providers@;
            providers.push(bi);
            assert(input_models(providers@) =~= input_models(before).push(bi@));
            assert(input_models(providers@) =~= Seq::new(
                (j + 1) as nat,
                |i: int| builtin_input(builtin_providers()[i], i),
            ));
            j = j + 1;
        }
    }
    let ghost inputs = saved_inputs(ps, us);
    assert(input_models(providers@) =~= inputs);
    assert forall|i: int| 0 <= i < inputs.len() implies (#[trigger] inputs[i]).id is Some by {
        if ps.len() == 0 {
            assert(inputs[i] == builtin_input(builtin_providers()[i], i));
        } else {
            assert(inputs[i] == submitted_input(ps[i], i, us[i]));
        }
    }
    let default_text_provider_id = match &input.default_text_provider_id {
        Some(v) => normalize_default_provider_id(Some(v.as_str()), &providers, ProviderCapability::Text),
        None => normalize_default_provider_id(None, &providers, ProviderCapability::Text),
    };
    let default_transcription_provider_id = match &input.default_transcription_provider_id {
        Some(v) => normalize_default_provider_id(
            Some(v.as_str()),
            &providers,
            ProviderCapability::Transcription,
        ),
        None => normalize_default_provider_id(None, &providers, ProviderCapability::Transcription),
    };
    let mut configs: Vec<ProviderConfig> = Vec::new();
    let mut key_actions: Vec<KeyAction> = Vec::new();
    let mut k: usize = 0;
    while k < providers.len()
        invariant
            k <= providers.len(),
            input_models(providers@) == inputs,
            forall|i: int| 0 <= i < inputs.len() ==> (#[trigger] inputs[i]).id is Some,
            models(configs@) == inputs.take(k as int).map_values(
                |p: InputModel| config_from_input(p, Seq::empty()),
            ),
            key_actions@.map_values(|a: KeyAction| a@) == key_actions_of(inputs.take(k as int)),
        decreases providers.len() - k,
    {
        let p = &providers[k];
        assert(inputs[k as int] == p@);
        assert(inputs.take(k + 1).drop_last() == inputs.take(k as int));
        assert(p@.id is Some);
        let cfg = provider_config_from_input(p);
        let key_ref = cfg.api_key_ref();
        let ghost before_actions = key_actions@;
        if p.clear_api_key {
            key_actions.push(KeyAction::Delete(key_ref));
            assert(key_actions@.map_values(|a: KeyAction| a@) =~= before_actions.map_values(
                |a: KeyAction| a@,
            ).push(key_action_of(p@)->0));
        } else {
            match &p.api_key {
                Some(key) => {
                    if !blank(key.as_str()) {
                        key_actions.push(KeyAction::Store(key_ref, key.clone()));
                        assert(key_actions@.map_values(|a: KeyAction| a@) =~= before_actions.map_values(
                            |a: KeyAction| a@,
                        ).push(key_action_of(p@)->0));
                    }
                },
                None => {},
            }
        }
        let ghost before = configs@;
        configs.push(cfg);
        assert(models(configs@) =~= models(before).push(cfg@));
        assert(inputs.take(k + 1).map_values(|p: InputModel| config_from_input(p, Seq::empty()))
            =~= inputs.take(k as int).map_values(|p: InputModel| config_from_input(p, Seq::empty())).push(
            config_from_input(p@, Seq::empty()),
        ));
        k = k + 1;
    }
    assert(inputs.take(providers.len() as int) == inputs);
    let settings = ProviderSettings {
        default_text_provider_id,
        default_transcription_provider_id,
        providers: configs,
    };
    SavePlan { settings, key_actions }
}

/// An API key typed in by the user is refused when blank.
pub fn validate_api_key(value: &str) -> (r: Result<(), String>)
    ensures
        r is Err <==> is_blank(value@),
        r matches Err(m) ==> m@ == "empty api key"@,
{
    if blank(value) {
        Err("empty api key".to_owned())
    } else {
        Ok(())
    }
}

} // verus!
