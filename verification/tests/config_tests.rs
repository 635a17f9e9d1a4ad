use my_media_kit::config::{default_capabilities, default_enabled, ProviderConfig, ProviderSettings};
use my_media_kit::model::{AiProviderType, ProviderCapability};

fn cfg(id: &str, priority: u32) -> ProviderConfig {
    ProviderConfig {
        id: id.to_string(),
        label: id.to_uppercase(),
        provider_type: AiProviderType::OpenAi,
        base_url: None,
        default_model: "m".to_string(),
        enabled: true,
        priority,
        capabilities: vec![ProviderCapability::Text],
        api_key_ref: None,
    }
}

#[test]
fn api_key_ref_defaults_to_provider_id() {
    let cfg = ProviderConfig {
        id: "custom-openai".into(),
        label: "Custom".into(),
        provider_type: AiProviderType::OpenAi,
        base_url: Some("https://example.com".into()),
        default_model: "gpt-4o-mini".into(),
        enabled: true,
        priority: 0,
        capabilities: vec![ProviderCapability::Text],
        api_key_ref: None,
    };
    assert_eq!(cfg.api_key_ref(), "ai.provider.custom-openai.apiKey");
}

#[test]
fn supports_checks_capabilities() {
    let cfg = ProviderConfig {
        id: "x".into(),
        label: "X".into(),
        provider_type: AiProviderType::OpenAi,
        base_url: None,
        default_model: "m".into(),
        enabled: true,
        priority: 0,
        capabilities: vec![ProviderCapability::Text, ProviderCapability::Transcription],
        api_key_ref: None,
    };
    assert!(cfg.supports(ProviderCapability::Text));
    assert!(!cfg.supports(ProviderCapability::Image));
}

#[test]
fn explicit_api_key_ref_is_kept() {
    let mut c = cfg("x", 0);
    c.api_key_ref = Some("custom.ref".to_string());
    assert_eq!(c.api_key_ref(), "custom.ref");
}

#[test]
fn sorted_providers_orders_by_priority_and_keeps_ties_in_order() {
    let settings = ProviderSettings {
        default_text_provider_id: None,
        default_transcription_provider_id: None,
        providers: vec![cfg("c", 2), cfg("a", 0), cfg("b1", 1), cfg("b2", 1), cfg("z", 0)],
    };
    let ids: Vec<String> = settings.sorted_providers().into_iter().map(|c| c.id).collect();
    assert_eq!(ids, vec!["a", "z", "b1", "b2", "c"]);
}

#[test]
fn sorted_providers_of_nothing_is_nothing() {
    let settings = ProviderSettings {
        default_text_provider_id: None,
        default_transcription_provider_id: None,
        providers: vec![],
    };
    assert!(settings.sorted_providers().is_empty());
}

#[test]
fn serde_style_defaults() {
    assert!(default_enabled());
    assert_eq!(default_capabilities(), vec![ProviderCapability::Text]);
}
