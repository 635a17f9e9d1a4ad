//! Decisions around individual providers: how a configured provider becomes
//! a client, what a provider test or ping answers, the status line of each
//! provider, the gateway a tool gets, and which providers may transcribe.

use vstd::prelude::*;
use crate::config::{ConfigModel, ProviderConfig, ProviderSettings, SettingsModel, by_priority,
    copy_configs, key_ref_of, models, opt_chars, sort_configs};
use crate::gateway::AIRequestContext;
use crate::model::{AiProviderError, AiProviderType, ProviderCapability, error_text};
use crate::search::{find_first, lemma_find_first_end, lemma_find_first_hit, lemma_find_first_skip};
use crate::settings::{ProviderConfigInput, WorkspaceRetryConfig, keychain_account_of,
    keychain_account_for};
use crate::sorting::stable_sort_by;
use crate::text::{blank, concat, copy_opt_string, is_blank, join, join_strings, str_eq,
    strings_view, trim, trimmed_opt};

verus! {

// ───────────────────────────── clients ─────────────────────────────

/// The client a configured provider turns into.
#[derive(Debug)]
pub enum ProviderPlan {
    OpenAi { api_key: String, base_url: Option<String> },
    OpenRouter { api_key: String, base_url: Option<String> },
    Anthropic { api_key: String },
    Gemini { api_key: String },
    Ollama { host: String },
    MlxLocal,
}

/// How a configured provider becomes a client, given what the keychain holds
/// under its key reference (`stored`) and whether the machine is Apple
/// Silicon: keyed families need a key (a keychain error is passed on, a
/// missing key is reported as such); Ollama uses its base URL, else the
/// stored value, else the local default host; MLX runs only on Apple Silicon;
/// Apple Intelligence is not available.
pub open spec fn plan_outcome(
    c: ConfigModel,
    stored: Result<Option<Seq<char>>, AiProviderError>,
    apple_silicon: bool,
) -> Result<(AiProviderType, Seq<char>, Option<Seq<char>>), AiProviderError> {
    match c.provider_type {
        AiProviderType::OpenAi | AiProviderType::OpenRouter | AiProviderType::Anthropic
        | AiProviderType::Gemini => match stored {
            Err(e) => Err(e),
            Ok(None) => Err(AiProviderError::MissingApiKey(c.provider_type)),
            Ok(Some(k)) => Ok(
                (
                    c.provider_type,
                    k,
                    if c.provider_type == AiProviderType::OpenAi || c.provider_type
                        == AiProviderType::OpenRouter {
                        c.base_url
                    } else {
                        None
                    },
                ),
            ),
        },
        AiProviderType::Ollama => Ok(
            (
                AiProviderType::Ollama,
                match c.base_url {
                    Some(b) => b,
                    None => match stored {
                        Ok(Some(v)) => v,
                        _ => "http://localhost:11434"@,
                    },
                },
                None,
            ),
        ),
        AiProviderType::Mlx => if apple_silicon {
            Ok((AiProviderType::Mlx, Seq::empty(), None))
        } else {
            Err(AiProviderError::NotAvailable(AiProviderType::Mlx))
        },
        AiProviderType::AppleIntelligence => Err(
            AiProviderError::NotAvailable(AiProviderType::AppleIntelligence),
        ),
    }
}

/// A plan by its family, its key (or host) and its base URL.
pub open spec fn plan_parts(p: ProviderPlan) -> (AiProviderType, Seq<char>, Option<Seq<char>>) {
    match p {
        ProviderPlan::OpenAi { api_key, base_url } => (AiProviderType::OpenAi, api_key@, opt_chars(base_url)),
        ProviderPlan::OpenRouter { api_key, base_url } => (AiProviderType::OpenRouter, api_key@, opt_chars(base_url)),
        ProviderPlan::Anthropic { api_key } => (AiProviderType::Anthropic, api_key@, None),
        ProviderPlan::Gemini { api_key } => (AiProviderType::Gemini, api_key@, None),
        ProviderPlan::Ollama { host } => (AiProviderType::Ollama, host@, None),
        ProviderPlan::MlxLocal => (AiProviderType::Mlx, Seq::empty(), None),
    }
}

/// An optional keychain value, by its characters.
pub open spec fn stored_chars(s: Result<Option<String>, AiProviderError>) -> Result<Option<Seq<char>>, AiProviderError> {
    match s {
        Ok(Some(v)) => Ok(Some(v@)),
        Ok(None) => Ok(None),
        Err(e) => Err(e),
    }
}

/// How a configured provider becomes a client (see [`plan_outcome`]).
pub fn provider_plan(
    config: &ProviderConfig,
    stored: Result<Option<String>, AiProviderError>,
    apple_silicon: bool,
) -> (r: Result<ProviderPlan, AiProviderError>)
    ensures
        match (r, plan_outcome(config@, stored_chars(stored), apple_silicon)) {
            (Ok(p), Ok(q)) => plan_parts(p) == q,
            (Err(e), Err(f)) => e == f,
            _ => false,
        },
{
    match config.provider_type {
        AiProviderType::OpenAi => match stored {
            Err(e) => Err(e),
            Ok(None) => Err(AiProviderError::MissingApiKey(AiProviderType::OpenAi)),
            Ok(Some(k)) => Ok(ProviderPlan::OpenAi { api_key: k, base_url: copy_opt_string(&config.base_url) }),
        },
        AiProviderType::OpenRouter => match stored {
            Err(e) => Err(e),
            Ok(None) => Err(AiProviderError::MissingApiKey(AiProviderType::OpenRouter)),
            Ok(Some(k)) => Ok(ProviderPlan::OpenRouter { api_key: k, base_url: copy_opt_string(&config.base_url) }),
        },
        AiProviderType::Anthropic => match stored {
            Err(e) => Err(e),
            Ok(None) => Err(AiProviderError::MissingApiKey(AiProviderType::Anthropic)),
            Ok(Some(k)) => Ok(ProviderPlan::Anthropic { api_key: k }),
        },
        AiProviderType::Gemini => match stored {
            Err(e) => Err(e),
            Ok(None) => Err(AiProviderError::MissingApiKey(AiProviderType::Gemini)),
            Ok(Some(k)) => Ok(ProviderPlan::Gemini { api_key: k }),
        },
        AiProviderType::Ollama => {
            let host = match &config.base_url {
                Some(b) => b.clone(),
                None => match stored {
                    Ok(Some(v)) => v,
                    _ => "http://localhost:11434".to_owned(),
                },
            };
            Ok(ProviderPlan::Ollama { host })
        },
        AiProviderType::Mlx => if apple_silicon {
            Ok(ProviderPlan::MlxLocal)
        } else {
            Err(AiProviderError::NotAvailable(AiProviderType::Mlx))
        },
        AiProviderType::AppleIntelligence => Err(
            AiProviderError::NotAvailable(AiProviderType::AppleIntelligence),
        ),
    }
}

// ───────────────────────────── status, ping and tests ─────────────────────────────

/// Whether the keychain holds a key for a provider family.
#[derive(Debug)]
pub struct KeyStatus {
    pub provider: AiProviderType,
    pub has_key: bool,
}

/// One line of the provider status list.
#[derive(Debug)]
pub struct ProviderStatusView {
    pub id: String,
    pub provider: AiProviderType,
    pub display_name: String,
    pub enabled: bool,
    pub available: bool,
    pub priority: u32,
    pub default_model: String,
    pub reason: Option<String>,
}

/// The status line of a provider, given whether building and checking it
/// succeeded (`Err` carries the reason).
pub fn status_view(cfg: &ProviderConfig, outcome: &Result<(), String>) -> (r: ProviderStatusView)
    ensures
        r.id@ == cfg@.id,
        r.provider == cfg@.provider_type,
        r.display_name@ == cfg@.label,
        r.enabled == cfg@.enabled,
        r.priority == cfg@.priority,
        r.default_model@ == cfg@.default_model,
        r.available == outcome is Ok,
        match outcome {
            Ok(()) => r.reason is None,
            Err(m) => opt_chars(r.reason) == Some(m@),
        },
{
    ProviderStatusView {
        id: cfg.id.clone(),
        provider: cfg.provider_type,
        display_name: cfg.label.clone(),
        enabled: cfg.enabled,
        available: outcome.is_ok(),
        priority: cfg.priority,
        default_model: cfg.default_model.clone(),
        reason: match outcome {
            Ok(()) => None,
            Err(m) => Some(m.clone()),
        },
    }
}

/// The provider a ping of a family goes to: the first of that family in
/// priority order.
pub open spec fn ping_choice(m: SettingsModel, t: AiProviderType) -> Option<ConfigModel> {
    find_first(by_priority(m.providers), |c: ConfigModel| c.provider_type == t)
}

/// The provider a ping of a family goes to (see [`ping_choice`]).
pub fn ping_target(settings: &ProviderSettings, provider: AiProviderType) -> (r: Option<ProviderConfig>)
    ensures
        match (r, ping_choice(settings@, provider)) {
            (Some(c), Some(d)) => c@ == d,
            (None, None) => true,
            _ => false,
        },
{
    let sorted = settings.sorted_providers();
    let ghost s = models(sorted@);
    let ghost pred = |c: ConfigModel| c.provider_type == provider;
    let mut i: usize = 0;
    assert(s.skip(0) == s);
    while i < sorted.len()
        invariant
            i <= sorted.len(),
            s == models(sorted@),
            s == by_priority(settings@.providers),
            pred == (|c: ConfigModel| c.provider_type == provider),
            find_first(s.skip(i as int), pred) == find_first(s, pred),
        decreases sorted.len() - i,
    {
        assert(s[i as int] == sorted@[i as int]@);
        if sorted[i].provider_type == provider {
            proof {
                lemma_find_first_hit(s, pred, i as int);
            }
            return Some(sorted[i].duplicate());
        }
        proof {
            lemma_find_first_skip(s, pred, i as int);
        }
        i = i + 1;
    }
    proof {
        lemma_find_first_end(s, pred);
    }
    None
}

/// The answer of a ping when no provider of that family is configured.
pub fn ping_not_configured_message() -> (r: String)
    ensures
        r@ == "provider not configured"@,
{
    "provider not configured".to_owned()
}

/// The outcome of testing a provider.
#[derive(Debug)]
pub struct ProviderTestResult {
    pub ok: bool,
    pub message: String,
}

/// What the settings form asks to test.
#[derive(Debug)]
pub struct ProviderTestInput {
    pub provider: ProviderConfigInput,
    pub capability: Option<ProviderCapability>,
}

/// The capability a test checks: the requested one, else text.
pub fn test_capability(input: &ProviderTestInput) -> (r: ProviderCapability)
    ensures
        r == match input.capability {
            Some(c) => c,
            None => ProviderCapability::Text,
        },
{
    match input.capability {
        Some(c) => c,
        None => ProviderCapability::Text,
    }
}

/// The key to store before testing: the typed-in key, when not blank, under
/// the config's key reference.
pub fn test_key_to_store(input: &ProviderConfigInput, config: &ProviderConfig) -> (r: Option<(String, String)>)
    ensures
        match r {
            Some((kr, k)) => input@.api_key == Some(k@) && !is_blank(k@) && kr@ == key_ref_of(config@),
            None => !(input@.api_key matches Some(k) && !is_blank(k)),
        },
{
    match &input.api_key {
        Some(k) => if !blank(k.as_str()) {
            Some((config.api_key_ref(), k.clone()))
        } else {
            None
        },
        None => None,
    }
}

/// The early answer of a transcription test: a text-only provider, or one
/// that is not OpenAI-compatible, fails at once with a message naming it.
pub fn transcription_precheck(config: &ProviderConfig) -> (r: Option<ProviderTestResult>)
    ensures
        !config@.capabilities.contains(ProviderCapability::Transcription) ==> (r matches Some(t) && !t.ok
            && t.message@ == config@.label + " is text-only and cannot be used for audio transcription"@),
        config@.capabilities.contains(ProviderCapability::Transcription) && config@.provider_type
            != AiProviderType::OpenAi ==> (r matches Some(t) && !t.ok && t.message@ == config@.label
            + " is not an OpenAI-compatible audio transcription provider in this version"@),
        config@.capabilities.contains(ProviderCapability::Transcription) && config@.provider_type
            == AiProviderType::OpenAi ==> r is None,
{
    if !config.supports(ProviderCapability::Transcription) {
        return Some(
            ProviderTestResult {
                ok: false,
                message: concat(
                    config.label.as_str(),
                    " is text-only and cannot be used for audio transcription",
                ),
            },
        );
    }
    if config.provider_type != AiProviderType::OpenAi {
        return Some(
            ProviderTestResult {
                ok: false,
                message: concat(
                    config.label.as_str(),
                    " is not an OpenAI-compatible audio transcription provider in this version",
                ),
            },
        );
    }
    None
}

/// The message when a provider's key is missing.
pub fn missing_key_message(label: &str) -> (r: String)
    ensures
        r@ == label@ + " API key not set"@,
{
    concat(label, " API key not set")
}

/// The answer of a transcription test from the endpoint probe.
pub fn probe_test_result(label: &str, probe: Result<(), String>) -> (r: ProviderTestResult)
    ensures
        r.ok == probe is Ok,
        match probe {
            Ok(()) => r.message@ == label@ + " audio transcription endpoint is ready"@,
            Err(m) => r.message@ == m@,
        },
{
    match probe {
        Ok(()) => ProviderTestResult {
            ok: true,
            message: concat(label, " audio transcription endpoint is ready"),
        },
        Err(m) => ProviderTestResult { ok: false, message: m },
    }
}

/// The answer of a text test from the provider's health check.
pub fn health_test_result(label: &str, health: Result<(), AiProviderError>) -> (r: ProviderTestResult)
    ensures
        r.ok == health is Ok,
        match health {
            Ok(()) => r.message@ == label@ + " is ready"@,
            Err(e) => r.message@ == error_text(e),
        },
{
    match health {
        Ok(()) => ProviderTestResult { ok: true, message: concat(label, " is ready") },
        Err(e) => ProviderTestResult { ok: false, message: e.message() },
    }
}


// ───────────────────────────── the gateway a tool gets ─────────────────────────────

/// The gateway handed to a content tool: the saved settings, the retry
/// settings, and the tool's needs and preferences.
#[derive(Debug)]
pub struct ConfiguredGatewayProvider {
    pub settings: ProviderSettings,
    pub retry: WorkspaceRetryConfig,
    pub tool_name: String,
    pub capability: ProviderCapability,
    pub preferred_provider_id: Option<String>,
    pub preferred_provider: Option<AiProviderType>,
    pub timeout_ms: Option<u64>,
}

/// The default provider id for a capability: the preferred one, else the
/// saved default for text or transcription.
pub open spec fn gateway_default_id(
    m: SettingsModel,
    capability: ProviderCapability,
    preferred: Option<Seq<char>>,
) -> Option<Seq<char>> {
    match preferred {
        Some(p) => Some(p),
        None => match capability {
            ProviderCapability::Text => m.default_text_provider_id,
            ProviderCapability::Transcription => m.default_transcription_provider_id,
            _ => None,
        },
    }
}

/// The providers whose health makes the gateway available, in priority order.
pub open spec fn health_candidates_of(m: SettingsModel, capability: ProviderCapability) -> Seq<ConfigModel> {
    by_priority(m.providers).filter(|c: ConfigModel| c.enabled && c.capabilities.contains(capability))
}

impl ConfiguredGatewayProvider {
    /// A gateway for one tool; requests time out after two minutes.
    pub fn new(
        settings: ProviderSettings,
        retry: WorkspaceRetryConfig,
        tool_name: String,
        capability: ProviderCapability,
        preferred_provider_id: Option<String>,
        preferred_provider: Option<AiProviderType>,
    ) -> (r: Self)
        ensures
            r.settings@ == settings@,
            r.retry == retry,
            r.tool_name@ == tool_name@,
            r.capability == capability,
            opt_chars(r.preferred_provider_id) == opt_chars(preferred_provider_id),
            r.preferred_provider == preferred_provider,
            r.timeout_ms == Some(120000u64),
    {
        ConfiguredGatewayProvider {
            settings,
            retry,
            tool_name,
            capability,
            preferred_provider_id,
            preferred_provider,
            timeout_ms: Some(120000),
        }
    }

    /// The family the gateway reports: the preferred one, else OpenAI.
    pub fn provider_type(&self) -> (r: AiProviderType)
        ensures
            r == match self.preferred_provider {
                Some(t) => t,
                None => AiProviderType::OpenAi,
            },
    {
        match self.preferred_provider {
            Some(t) => t,
            None => AiProviderType::OpenAi,
        }
    }

    /// The gateway serves exactly its tool's capability.
    pub fn supports(&self, capability: ProviderCapability) -> (r: bool)
        ensures
            r == (capability == self.capability),
    {
        capability == self.capability
    }

    /// The request context for a completion with `request_model`: the
    /// tool's needs and preferences, the request's model when not blank, two
    /// tries per provider and 1200 ms base wait unless the workspace retry
    /// settings say otherwise, no metadata.
    pub fn request_context(&self, request_model: &str) -> (r: AIRequestContext)
        ensures
            r.tool_name@ == self.tool_name@,
            r.capability == self.capability,
            opt_chars(r.preferred_provider_id) == opt_chars(self.preferred_provider_id),
            r.preferred_provider == self.preferred_provider,
            opt_chars(r.preferred_model) == (if is_blank(request_model@) {
                None
            } else {
                Some(request_model@)
            }),
            r.timeout_ms == self.timeout_ms,
            r.metadata@.dom().len() == 0,
            r.max_attempts_per_provider == match self.retry.max_attempts_per_provider {
                Some(n) => n,
                None => 2,
            },
            r.retry_backoff_ms == match self.retry.retry_backoff_ms {
                Some(n) => n,
                None => 1200,
            },
    {
        let metadata: std::collections::HashMap<String, String> = std::collections::HashMap::new();
        AIRequestContext {
            tool_name: self.tool_name.clone(),
            capability: self.capability,
            preferred_provider_id: copy_opt_string(&self.preferred_provider_id),
            preferred_provider: self.preferred_provider,
            preferred_model: if blank(request_model) {
                None
            } else {
                Some(request_model.to_owned())
            },
            timeout_ms: self.timeout_ms,
            metadata,
            max_attempts_per_provider: match self.retry.max_attempts_per_provider {
                Some(n) => n,
                None => 2,
            },
            retry_backoff_ms: match self.retry.retry_backoff_ms {
                Some(n) => n,
                None => 1200,
            },
        }
    }

    /// The providers whose health makes the gateway available: enabled ones
    /// that can serve the tool, in priority order.
    pub fn health_candidates(&self) -> (r: Vec<ProviderConfig>)
        ensures
            models(r@) == health_candidates_of(self.settings@, self.capability),
    {
        let sorted = self.settings.sorted_providers();
        let ghost cap = self.capability;
        let ghost pred = |c: ConfigModel| c.enabled && c.capabilities.contains(cap);
        let mut out: Vec<ProviderConfig> = Vec::new();
        let mut i: usize = 0;
        while i < sorted.len()
            invariant
                i <= sorted.len(),
                cap == self.capability,
                pred == (|c: ConfigModel| c.enabled && c.capabilities.contains(cap)),
                models(sorted@) == by_priority(self.settings@.providers),
                models(out@) == models(sorted@).take(i as int).filter(pred),
            decreases sorted.len() - i,
        {
            let c = &sorted[i];
            let ghost prefix = models(sorted@).take(i as int);
            assert(models(sorted@).take(i + 1) == prefix.push(c@));
            reveal(Seq::filter);
            assert(prefix.push(c@).drop_last() == prefix);
            if c.enabled && c.supports(self.capability) {
                let ghost before = out@;
                out.push(c.duplicate());
                assert(models(out@) =~= models(before).push(c@));
            }
            i = i + 1;
        }
        assert(models(sorted@).take(sorted.len() as int) == models(sorted@));
        out
    }

    /// The answer of a health check when no provider is healthy.
    pub fn no_healthy_provider_error(&self) -> (r: AiProviderError)
        ensures
            r matches AiProviderError::Rejected(m) && m@ == "no healthy providers available for "@
                + self.tool_name@,
    {
        AiProviderError::Rejected(concat("no healthy providers available for ", self.tool_name.as_str()))
    }
}

/// The gateway for a tool, with the default provider for its capability
/// when the tool names none (see [`gateway_default_id`]).
pub fn build_gateway_provider(
    settings: ProviderSettings,
    retry: WorkspaceRetryConfig,
    tool_name: String,
    capability: ProviderCapability,
    preferred_provider_id: Option<String>,
    preferred_provider: Option<AiProviderType>,
) -> (r: ConfiguredGatewayProvider)
    ensures
        opt_chars(r.preferred_provider_id) == gateway_default_id(
            settings@,
            capability,
            opt_chars(preferred_provider_id),
        ),
        r.settings@ == settings@,
        r.retry == retry,
        r.tool_name@ == tool_name@,
        r.capability == capability,
        r.preferred_provider == preferred_provider,
        r.timeout_ms == Some(120000u64),
{
    let default_provider_id = match preferred_provider_id {
        Some(p) => Some(p),
        None => match capability {
            ProviderCapability::Text => copy_opt_string(&settings.default_text_provider_id),
            ProviderCapability::Transcription => copy_opt_string(
                &settings.default_transcription_provider_id,
            ),
            _ => None,
        },
    };
    ConfiguredGatewayProvider::new(
        settings,
        retry,
        tool_name,
        capability,
        default_provider_id,
        preferred_provider,
    )
}

// ───────────────────────────── transcription providers ─────────────────────────────

/// A provider that will be asked to transcribe, with its key.
#[derive(Debug)]
pub struct TranscriptionProviderTarget {
    pub config: ProviderConfig,
    pub api_key: String,
}

/// The provider to try first: the requested one (trimmed, when not blank),
/// else the saved default for transcription.
pub open spec fn preferred_transcription_id(requested: Option<Seq<char>>, m: SettingsModel) -> Option<Seq<char>> {
    match trimmed_opt(requested) {
        Some(v) => Some(v),
        None => m.default_transcription_provider_id,
    }
}

/// The order key of a transcription candidate: the preferred provider first,
/// then priority.
pub open spec fn transcription_key(c: ConfigModel, preferred: Option<Seq<char>>) -> u64 {
    let miss: u64 = match preferred {
        Some(id) => if c.id != id {
            1
        } else {
            0
        },
        None => 0,
    };
    (miss * 0x1_0000_0000 + c.priority) as u64
}

/// An enabled OpenAI-compatible provider that can transcribe.
pub open spec fn can_transcribe(c: ConfigModel) -> bool {
    c.enabled && c.provider_type == AiProviderType::OpenAi && c.capabilities.contains(
        ProviderCapability::Transcription,
    )
}

/// The providers that may transcribe, in the order they are tried.
pub open spec fn transcription_order(m: SettingsModel, requested: Option<Seq<char>>) -> Seq<ConfigModel> {
    let preferred = preferred_transcription_id(requested, m);
    stable_sort_by(by_priority(m.providers), |c: ConfigModel| transcription_key(c, preferred)).filter(
        |c: ConfigModel| can_transcribe(c),
    )
}

/// The providers that may transcribe, in the order they are tried (see
/// [`transcription_order`]).
pub fn transcription_candidates(settings: &ProviderSettings, requested: Option<&str>) -> (r: Vec<
    ProviderConfig,
>)
    ensures
        models(r@) == transcription_order(
            settings@,
            match requested {
                Some(v) => Some(v@),
                None => None,
            },
        ),
{
    let trimmed = match requested {
        Some(v) => {
            let t = trim(v);
            if t.as_str().is_empty() {
                None
            } else {
                Some(t)
            }
        },
        None => None,
    };
    let preferred = match trimmed {
        Some(t) => Some(t),
        None => copy_opt_string(&settings.default_transcription_provider_id),
    };
    let ghost pid = opt_chars(preferred);
    assert(pid == preferred_transcription_id(
        match requested {
            Some(v) => Some(v@),
            None => None,
        },
        settings@,
    ));
    let sorted = settings.sorted_providers();
    let mut keys: Vec<u64> = Vec::new();
    let mut i: usize = 0;
    while i < sorted.len()
        invariant
            i <= sorted.len(),
            keys.len() == i,
            pid == opt_chars(preferred),
            forall|j: int| 0 <= j < i ==> keys@[j] == transcription_key(#[trigger] sorted@[j]@, pid),
        decreases sorted.len() - i,
    {
        let miss: u64 = match &preferred {
            Some(id) => if !str_eq(sorted[i].id.as_str(), id.as_str()) {
                1
            } else {
                0
            },
            None => 0,
        };
        keys.push(miss * 0x1_0000_0000 + sorted[i].priority as u64);
        i = i + 1;
    }
    let ghost key = |c: ConfigModel| transcription_key(c, pid);
    let ordered = sort_configs(sorted, &keys, Ghost(key));
    let ghost pred = |c: ConfigModel| can_transcribe(c);
    let mut out: Vec<ProviderConfig> = Vec::new();
    let mut k: usize = 0;
    while k < ordered.len()
        invariant
            k <= ordered.len(),
            pred == (|c: ConfigModel| can_transcribe(c)),
            models(out@) == models(ordered@).take(k as int).filter(pred),
        decreases ordered.len() - k,
    {
        let c = &ordered[k];
        let ghost prefix = models(ordered@).take(k as int);
        assert(models(ordered@).take(k + 1) == prefix.push(c@));
        reveal(Seq::filter);
        assert(prefix.push(c@).drop_last() == prefix);
        if c.enabled && c.provider_type == AiProviderType::OpenAi && c.supports(
            ProviderCapability::Transcription,
        ) {
            let ghost before = out@;
            out.push(c.duplicate());
            assert(models(out@) =~= models(before).push(c@));
        }
        k = k + 1;
    }
    assert(models(ordered@).take(ordered.len() as int) == models(ordered@));
    out
}

/// The line recorded for a candidate whose key is missing.
pub open spec fn skipped_line(c: ConfigModel) -> Seq<char> {
    c.label + ": API key not set"@
}

/// The candidates that have a key (`keys[i]` is what the keychain holds for
/// candidate `i`), in order, and one line for each candidate that has none.
pub fn targets_from_keys(candidates: Vec<ProviderConfig>, keys: Vec<Option<String>>) -> (r: (
    Vec<TranscriptionProviderTarget>,
    Vec<String>,
))
    requires
        keys.len() == candidates.len(),
    ensures
        ({
            let ks = keys@.map_values(|k: Option<String>| opt_chars(k));
            let cs = models(candidates@);
            let idx = Seq::new(cs.len(), |i: int| i);
            let with_key = idx.filter(|i: int| ks[i] is Some);
            let without = idx.filter(|i: int| ks[i] is None);
            &&& r.0@.len() == with_key.len()
            &&& forall|j: int|
                0 <= j < with_key.len() ==> (#[trigger] r.0@[j]).config@ == cs[with_key[j]] && Some(
                    r.0@[j].api_key@,
                ) == ks[with_key[j]]
            &&& strings_view(r.1@) == without.map_values(|i: int| skipped_line(cs[i]))
        }),
{
    let ghost ks = keys@.map_values(|k: Option<String>| opt_chars(k));
    let ghost cs = models(candidates@);
    let ghost idx = Seq::new(cs.len(), |i: int| i);
    let ghost has = |i: int| ks[i] is Some;
    let ghost hasnt = |i: int| ks[i] is None;
    let n = candidates.len();
    let mut rest_c = candidates;
    let mut rest_k = keys;
    let mut targets: Vec<TranscriptionProviderTarget> = Vec::new();
    let mut skipped: Vec<String> = Vec::new();
    let mut i: usize = 0;
    while i < n
        invariant
            n == cs.len() == ks.len(),
            i <= n,
            idx == Seq::new(cs.len(), |i: int| i),
            has == (|i: int| ks[i] is Some),
            hasnt == (|i: int| ks[i] is None),
            rest_c.len() == n - i,
            rest_k.len() == n - i,
            forall|j: int| 0 <= j < n - i ==> (#[trigger] rest_c@[j])@ == cs[i + j],
            forall|j: int| 0 <= j < n - i ==> opt_chars(#[trigger] rest_k@[j]) == ks[i + j],
            targets@.len() == idx.take(i as int).filter(has).len(),
            forall|j: int|
                0 <= j < targets@.len() ==> (#[trigger] targets@[j]).config@ == cs[idx.take(
                    i as int,
                ).filter(has)[j]] && Some(targets@[j].api_key@) == ks[idx.take(i as int).filter(
                    has,
                )[j]],
            strings_view(skipped@) == idx.take(i as int).filter(hasnt).map_values(
                |i: int| skipped_line(cs[i]),
            ),
        decreases n - i,
    {
        let ghost old_c = rest_c@;
        let ghost old_k = rest_k@;
        let c = rest_c.remove(0);
        let k = rest_k.remove(0);
        assert(c@ == cs[i as int]);
        assert(opt_chars(k) == ks[i as int]);
        assert forall|j: int| 0 <= j < n - i - 1 implies (#[trigger] rest_c@[j])@ == cs[i + 1 + j] by {
            assert(rest_c@[j] == old_c[j + 1]);
        }
        assert forall|j: int| 0 <= j < n - i - 1 implies opt_chars(#[trigger] rest_k@[j]) == ks[i + 1 + j] by {
            assert(rest_k@[j] == old_k[j + 1]);
        }
        let ghost prefix = idx.take(i as int);
        assert(idx.take(i + 1) == prefix.push(i as int));
        reveal(Seq::filter);
        assert(prefix.push(i as int).drop_last() == prefix);
        let ghost before_t = targets@;
        let ghost before_s = skipped@;
        match k {
            Some(api_key) => {
                assert(prefix.push(i as int).filter(has) == prefix.filter(has).push(i as int));
                assert(prefix.push(i as int).filter(hasnt) == prefix.filter(hasnt));
                targets.push(TranscriptionProviderTarget { config: c, api_key });
                assert forall|j: int| 0 <= j < targets@.len() implies (#[trigger] targets@[j]).config@
                    == cs[idx.take(i + 1).filter(has)[j]] && Some(targets@[j].api_key@)
                    == ks[idx.take(i + 1).filter(has)[j]] by {
                    if j < before_t.len() {
                        assert(targets@[j] == before_t[j]);
                    }
                }
            },
            None => {
                assert(prefix.push(i as int).filter(hasnt) == prefix.filter(hasnt).push(i as int));
                assert(prefix.push(i as int).filter(has) == prefix.filter(has));
                let line = concat(c.label.as_str(), ": API key not set");
                skipped.push(line);
                assert(strings_view(skipped@) =~= strings_view(before_s).push(line@));
                assert(prefix.filter(hasnt).push(i as int).map_values(|i: int| skipped_line(cs[i]))
                    =~= prefix.filter(hasnt).map_values(|i: int| skipped_line(cs[i])).push(
                    skipped_line(cs[i as int]),
                ));
            },
        }
        i = i + 1;
    }
    assert(idx.take(n as int) == idx);
    (targets, skipped)
}

/// The provider used with the legacy OpenAI key: OpenAI with `whisper-1`.
pub open spec fn legacy_config() -> ConfigModel {
    ConfigModel {
        id: "openai"@,
        label: "OpenAI"@,
        provider_type: AiProviderType::OpenAi,
        base_url: Some("https://api.openai.com/v1"@),
        default_model: "whisper-1"@,
        enabled: true,
        priority: 0,
        capabilities: seq![ProviderCapability::Text, ProviderCapability::Transcription],
        api_key_ref: Some(keychain_account_of(AiProviderType::OpenAi)),
    }
}

/// The target used when no configured provider can transcribe but the
/// keychain holds the legacy OpenAI key (see [`legacy_config`]).
pub fn legacy_target(api_key: String) -> (r: TranscriptionProviderTarget)
    ensures
        r.api_key@ == api_key@,
        r.config@ == legacy_config(),
{
    let mut caps: Vec<ProviderCapability> = Vec::new();
    caps.push(ProviderCapability::Text);
    caps.push(ProviderCapability::Transcription);
    let config = ProviderConfig {
        id: "openai".to_owned(),
        label: "OpenAI".to_owned(),
        provider_type: AiProviderType::OpenAi,
        base_url: Some("https://api.openai.com/v1".to_owned()),
        default_model: "whisper-1".to_owned(),
        enabled: true,
        priority: 0,
        capabilities: caps,
        api_key_ref: Some(keychain_account_for(AiProviderType::OpenAi).to_owned()),
    };
    assert(config@.capabilities =~= seq![ProviderCapability::Text, ProviderCapability::Transcription]);
    TranscriptionProviderTarget { config, api_key }
}

/// The error when no provider can transcribe, listing the skipped ones.
pub open spec fn no_transcription_provider_text(skipped: Seq<Seq<char>>) -> Seq<char> {
    if skipped.len() == 0 {
        "No OpenAI-compatible transcription provider is configured"@
    } else {
        "No OpenAI-compatible transcription provider is configured"@ + ": "@ + join(skipped, " | "@)
    }
}

/// The error when no provider can transcribe (see
/// [`no_transcription_provider_text`]).
pub fn no_transcription_provider_message(skipped: &Vec<String>) -> (r: String)
    ensures
        r@ == no_transcription_provider_text(strings_view(skipped@)),
{
    let message = "No OpenAI-compatible transcription provider is configured".to_owned();
    if skipped.len() == 0 {
        message
    } else {
        let a = concat(message.as_str(), ": ");
        let j = join_strings(skipped, " | ");
        concat(a.as_str(), j.as_str())
    }
}

/// The providers a cloud transcription goes through: the configured targets
/// when there are any; else, when the keychain holds the legacy OpenAI key
/// (`legacy_key`, looked up only when no target has a key), the legacy
/// OpenAI target alone; else the error listing the skipped providers.
pub fn chosen_transcription_targets(
    targets: Vec<TranscriptionProviderTarget>,
    skipped: &Vec<String>,
    legacy_key: Option<String>,
) -> (r: Result<Vec<TranscriptionProviderTarget>, String>)
    ensures
        targets@.len() > 0 ==> r == Ok::<Vec<TranscriptionProviderTarget>, String>(targets),
        targets@.len() == 0 ==> match legacy_key {
            Some(k) => r matches Ok(v) && v@.len() == 1 && v@[0].config@ == legacy_config()
                && v@[0].api_key@ == k@,
            None => r matches Err(m) && m@ == no_transcription_provider_text(strings_view(skipped@)),
        },
{
    if targets.len() > 0 {
        return Ok(targets);
    }
    match legacy_key {
        Some(k) => {
            let mut v: Vec<TranscriptionProviderTarget> = Vec::new();
            v.push(legacy_target(k));
            Ok(v)
        },
        None => Err(no_transcription_provider_message(skipped)),
    }
}

} // verus!
