use my_media_kit::config::{ProviderConfig, ProviderSettings};
use my_media_kit::model::{AiProviderType, ProviderCapability};
use my_media_kit::provider_id::sanitize_provider_id;
use my_media_kit::settings::{
    default_base_url_for, default_model_for, default_provider_settings, merge_workspace_config,
    normalize_default_provider_id, normalize_provider_input, normalize_provider_input_with,
    normalize_settings, plan_saved_settings, provider_config_from_input, sanitize_optional,
    validate_api_key, view_from_settings, workspace_key_writes, KeyAction, ProviderConfigInput,
    ProviderSettingsInput, WorkspaceAiConfig, WorkspaceProviderConfig, WorkspaceRetryConfig,
    OPENAI_API_BASE, OPENAI_DEFAULT_MODEL,
};

fn input(id: Option<&str>, label: &str) -> ProviderConfigInput {
    ProviderConfigInput {
        id: id.map(|s| s.to_string()),
        label: label.to_string(),
        provider_type: AiProviderType::OpenAi,
        base_url: None,
        default_model: "m".to_string(),
        enabled: true,
        priority: 9,
        capabilities: vec![ProviderCapability::Text],
        api_key_ref: None,
        api_key: None,
        clear_api_key: false,
    }
}

#[test]
fn provider_id_is_sanitized() {
    assert_eq!(sanitize_provider_id("My Custom Provider!"), "my-custom-provider");
}

#[test]
fn sanitizing_collapses_and_trims_dashes() {
    assert_eq!(sanitize_provider_id("--A__b--"), "a-b");
    assert_eq!(sanitize_provider_id("!!!"), "");
    assert_eq!(sanitize_provider_id("Été 2024"), "t-2024");
}

#[test]
fn sanitizing_is_idempotent() {
    for raw in ["My Custom Provider!", "--x--y--", "ÀB C", "a1-b2"] {
        let once = sanitize_provider_id(raw);
        assert_eq!(sanitize_provider_id(&once), once);
    }
}

#[test]
fn normalization_fills_missing_defaults() {
    let input = normalize_provider_input(ProviderConfigInput {
        id: None,
        label: "OpenAI Mirror".into(),
        provider_type: AiProviderType::OpenAi,
        base_url: Some(" https://example.com ".into()),
        default_model: "".into(),
        enabled: true,
        priority: 0,
        capabilities: vec![],
        api_key_ref: None,
        api_key: None,
        clear_api_key: false,
    });
    assert!(input.id.unwrap().starts_with("openai-mirror-"));
    assert_eq!(input.base_url.as_deref(), Some("https://example.com"));
    assert_eq!(input.default_model, OPENAI_DEFAULT_MODEL);
    assert_eq!(input.capabilities, vec![ProviderCapability::Text]);
}

#[test]
fn normalization_with_a_given_uuid_is_exact() {
    let mut i = input(None, "  ");
    i.provider_type = AiProviderType::Anthropic;
    i.default_model = " ".to_string();
    let n = normalize_provider_input_with(i, "0f0e0d0c-aaaa-4bbb-8ccc-111122223333");
    assert_eq!(n.id.as_deref(), Some("0f0e0d0c-aaaa-4bbb-8ccc-111122223333"));
    assert_eq!(n.label, "Anthropic");
    assert_eq!(n.default_model, "sonnet-4-5-20250929");
}

#[test]
fn normalization_backfills_beeknoee_default_provider() {
    let settings = ProviderSettings {
        default_text_provider_id: None,
        default_transcription_provider_id: None,
        providers: vec![ProviderConfig {
            id: "openai".into(),
            label: "OpenAI".into(),
            provider_type: AiProviderType::OpenAi,
            base_url: Some(OPENAI_API_BASE.into()),
            default_model: OPENAI_DEFAULT_MODEL.into(),
            enabled: true,
            priority: 0,
            capabilities: vec![ProviderCapability::Text],
            api_key_ref: None,
        }],
    };
    let normalized = normalize_settings(settings);
    assert!(normalized.providers.iter().any(|cfg| cfg.id == "beeknoee"));
}

#[test]
fn normalized_settings_keep_every_builtin() {
    let settings = ProviderSettings {
        default_text_provider_id: Some(" My Provider ".to_string()),
        default_transcription_provider_id: Some("!!".to_string()),
        providers: vec![],
    };
    let normalized = normalize_settings(settings);
    let ids: Vec<&str> = normalized.providers.iter().map(|c| c.id.as_str()).collect();
    for id in ["openai", "beeknoee", "openrouter", "anthropic", "gemini", "ollama"] {
        assert!(ids.contains(&id));
    }
    assert_eq!(normalized.default_text_provider_id.as_deref(), Some("my-provider"));
    assert_eq!(normalized.default_transcription_provider_id, None);
}

#[test]
fn builtin_settings() {
    let s = default_provider_settings();
    assert_eq!(s.providers.len(), 6);
    assert_eq!(s.default_text_provider_id.as_deref(), Some("openai"));
    assert!(s.providers[0].enabled);
    assert!(s.providers[1..].iter().all(|c| !c.enabled));
    assert_eq!(s.providers[1].api_key_ref.as_deref(), Some("ai.provider.beeknoee.apiKey"));
}

#[test]
fn family_defaults() {
    assert_eq!(default_model_for(AiProviderType::Ollama), "llama3.2");
    assert_eq!(default_base_url_for(AiProviderType::Anthropic), None);
    assert_eq!(default_base_url_for(AiProviderType::OpenRouter).as_deref(), Some("https://openrouter.ai/api/v1"));
}

#[test]
fn sanitize_optional_trims_and_drops_blank() {
    assert_eq!(sanitize_optional(Some("  x ".to_string())).as_deref(), Some("x"));
    assert_eq!(sanitize_optional(Some("   ".to_string())), None);
    assert_eq!(sanitize_optional(None), None);
}

#[test]
fn config_from_input_fills_key_ref_and_base_url() {
    let mut i = input(Some("p1"), "P");
    i.api_key_ref = Some("  ".to_string());
    let c = provider_config_from_input(&i);
    assert_eq!(c.id, "p1");
    assert_eq!(c.api_key_ref.as_deref(), Some("ai.provider.p1.apiKey"));
    assert_eq!(c.base_url.as_deref(), Some(OPENAI_API_BASE));
    let c = provider_config_from_input(&input(None, "P"));
    assert_eq!(c.id.len(), 36);
}

#[test]
fn default_provider_id_falls_back_to_first_fitting_provider() {
    let mut off = input(Some("off"), "Off");
    off.enabled = false;
    let a = input(Some("a"), "A");
    let b = input(Some("b"), "B");
    let ps = vec![off, a, b];
    assert_eq!(normalize_default_provider_id(Some("B"), &ps, ProviderCapability::Text).as_deref(), Some("b"));
    assert_eq!(normalize_default_provider_id(Some("off"), &ps, ProviderCapability::Text).as_deref(), Some("a"));
    assert_eq!(normalize_default_provider_id(None, &ps, ProviderCapability::Transcription), None);
}

#[test]
fn empty_api_key_is_refused() {
    assert_eq!(validate_api_key("  "), Err("empty api key".to_string()));
    assert_eq!(validate_api_key("sk-1"), Ok(()));
}

#[test]
fn saving_an_empty_form_saves_the_builtins() {
    let plan = plan_saved_settings(ProviderSettingsInput {
        default_text_provider_id: None,
        default_transcription_provider_id: None,
        providers: vec![],
    });
    assert_eq!(plan.settings.providers.len(), 6);
    assert_eq!(plan.settings.default_text_provider_id.as_deref(), Some("openai"));
    assert_eq!(plan.settings.default_transcription_provider_id.as_deref(), Some("openai"));
    assert!(plan.key_actions.is_empty());
}

#[test]
fn saving_renumbers_priorities_and_plans_key_changes() {
    let mut a = input(Some("A"), "A");
    a.api_key = Some("sk-a".to_string());
    let mut b = input(Some("b"), "B");
    b.clear_api_key = true;
    b.api_key = Some("ignored".to_string());
    let plan = plan_saved_settings(ProviderSettingsInput {
        default_text_provider_id: Some("b".to_string()),
        default_transcription_provider_id: None,
        providers: vec![a, b],
    });
    let p = &plan.settings.providers;
    assert_eq!((p[0].id.as_str(), p[0].priority), ("a", 0));
    assert_eq!((p[1].id.as_str(), p[1].priority), ("b", 1));
    assert_eq!(plan.settings.default_text_provider_id.as_deref(), Some("b"));
    assert_eq!(plan.settings.default_transcription_provider_id, None);
    assert_eq!(plan.key_actions.len(), 2);
    match &plan.key_actions[0] {
        KeyAction::Store(r, k) => {
            assert_eq!(r, "ai.provider.a.apiKey");
            assert_eq!(k, "sk-a");
        }
        other => panic!("unexpected {other:?}"),
    }
    match &plan.key_actions[1] {
        KeyAction::Delete(r) => assert_eq!(r, "ai.provider.b.apiKey"),
        other => panic!("unexpected {other:?}"),
    }
}

fn ws_provider(id: &str, priority: Option<u32>, key: Option<&str>) -> WorkspaceProviderConfig {
    WorkspaceProviderConfig {
        id: id.to_string(),
        label: format!(" {id} "),
        provider_type: AiProviderType::OpenAi,
        base_url: Some("  ".to_string()),
        default_model: None,
        enabled: None,
        priority,
        capabilities: vec![],
        api_key_ref: None,
        api_key: key.map(|k| k.to_string()),
    }
}

#[test]
fn workspace_config_overrides_and_adds_providers() {
    let mut settings = default_provider_settings();
    let ws = WorkspaceAiConfig {
        retry: WorkspaceRetryConfig { max_attempts_per_provider: None, retry_backoff_ms: None },
        default_text_provider_id: Some("My LLM".to_string()),
        default_transcription_provider_id: None,
        providers: vec![ws_provider("OpenAI", Some(3), Some("sk")), ws_provider("My LLM", None, Some(" "))],
    };
    merge_workspace_config(&mut settings, &ws);
    assert_eq!(settings.default_text_provider_id.as_deref(), Some("my-llm"));
    assert_eq!(settings.default_transcription_provider_id.as_deref(), Some("openai"));
    assert_eq!(settings.providers.len(), 7);
    assert_eq!(settings.providers[0].id, "my-llm");
    let openai = settings.providers.iter().find(|c| c.id == "openai").unwrap();
    assert_eq!(openai.priority, 3);
    assert_eq!(openai.label, "OpenAI");
    assert_eq!(openai.base_url, None);
    assert_eq!(openai.default_model, OPENAI_DEFAULT_MODEL);
    assert_eq!(openai.capabilities, vec![ProviderCapability::Text]);
    let writes = workspace_key_writes(&ws);
    assert_eq!(writes, vec![("ai.provider.openai.apiKey".to_string(), "sk".to_string())]);
}

#[test]
fn settings_view_resolves_defaults_from_stored_keys() {
    let settings = default_provider_settings();
    let none = view_from_settings(&settings, &vec![]);
    assert_eq!(none.providers.len(), 6);
    assert_eq!(none.default_text_provider_id, None);
    let with_key = view_from_settings(&settings, &vec!["openai_api_key".to_string()]);
    assert_eq!(with_key.default_text_provider_id.as_deref(), Some("openai"));
    assert_eq!(with_key.default_text_model.as_deref(), Some("gpt-4o-mini"));
    assert_eq!(with_key.default_transcription_model.as_deref(), Some("whisper-1"));
    // Ollama needs no key; it is shown as having one.
    assert!(with_key.providers.iter().find(|p| p.id == "ollama").unwrap().has_api_key);
}
