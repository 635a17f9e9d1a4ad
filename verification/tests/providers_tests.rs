use my_media_kit::config::{ProviderConfig, ProviderSettings};
use my_media_kit::model::{AiProviderError, AiProviderType, ProviderCapability};
use my_media_kit::providers::{
    build_gateway_provider, chosen_transcription_targets, health_test_result, legacy_target, missing_key_message,
    no_transcription_provider_message, ping_target, probe_test_result, provider_plan, status_view,
    targets_from_keys, test_capability, test_key_to_store, transcription_candidates,
    transcription_precheck, ProviderPlan, ProviderTestInput, TranscriptionProviderTarget,
};
use my_media_kit::settings::{default_provider_settings, ProviderConfigInput, WorkspaceRetryConfig};

fn cfg(id: &str, t: AiProviderType, priority: u32, caps: Vec<ProviderCapability>) -> ProviderConfig {
    ProviderConfig {
        id: id.into(),
        label: id.to_uppercase(),
        provider_type: t,
        base_url: None,
        default_model: "m".into(),
        enabled: true,
        priority,
        capabilities: caps,
        api_key_ref: None,
    }
}

#[test]
fn plans_follow_the_family() {
    let openai = cfg("o", AiProviderType::OpenAi, 0, vec![]);
    match provider_plan(&openai, Ok(Some("sk".into())), false).unwrap() {
        ProviderPlan::OpenAi { api_key, base_url } => {
            assert_eq!(api_key, "sk");
            assert_eq!(base_url, None);
        }
        other => panic!("unexpected {other:?}"),
    }
    assert!(matches!(
        provider_plan(&openai, Ok(None), false),
        Err(AiProviderError::MissingApiKey(AiProviderType::OpenAi))
    ));
    assert!(matches!(
        provider_plan(&openai, Err(AiProviderError::Rejected("keychain locked".into())), false),
        Err(AiProviderError::Rejected(_))
    ));
    let ollama = cfg("l", AiProviderType::Ollama, 0, vec![]);
    match provider_plan(&ollama, Err(AiProviderError::Cancelled), false).unwrap() {
        ProviderPlan::Ollama { host } => assert_eq!(host, "http://localhost:11434"),
        other => panic!("unexpected {other:?}"),
    }
    let mlx = cfg("x", AiProviderType::Mlx, 0, vec![]);
    assert!(matches!(provider_plan(&mlx, Ok(None), true), Ok(ProviderPlan::MlxLocal)));
    assert!(matches!(
        provider_plan(&mlx, Ok(None), false),
        Err(AiProviderError::NotAvailable(AiProviderType::Mlx))
    ));
    let apple = cfg("a", AiProviderType::AppleIntelligence, 0, vec![]);
    assert!(matches!(
        provider_plan(&apple, Ok(Some("k".into())), true),
        Err(AiProviderError::NotAvailable(AiProviderType::AppleIntelligence))
    ));
}

#[test]
fn status_lines() {
    let c = cfg("o", AiProviderType::OpenAi, 2, vec![]);
    let ok = status_view(&c, &Ok(()));
    assert!(ok.available && ok.reason.is_none());
    let bad = status_view(&c, &Err("down".into()));
    assert!(!bad.available);
    assert_eq!(bad.reason.as_deref(), Some("down"));
    assert_eq!(bad.priority, 2);
}

#[test]
fn ping_goes_to_first_of_family() {
    let settings = ProviderSettings {
        default_text_provider_id: None,
        default_transcription_provider_id: None,
        providers: vec![
            cfg("late", AiProviderType::Anthropic, 5, vec![]),
            cfg("early", AiProviderType::Anthropic, 1, vec![]),
        ],
    };
    assert_eq!(ping_target(&settings, AiProviderType::Anthropic).unwrap().id, "early");
    assert!(ping_target(&settings, AiProviderType::Gemini).is_none());
}

#[test]
fn provider_test_answers() {
    let text_only = cfg("t", AiProviderType::OpenAi, 0, vec![ProviderCapability::Text]);
    let r = transcription_precheck(&text_only).unwrap();
    assert!(!r.ok);
    assert_eq!(r.message, "T is text-only and cannot be used for audio transcription");
    let anthropic = cfg("c", AiProviderType::Anthropic, 0, vec![ProviderCapability::Transcription]);
    assert_eq!(
        transcription_precheck(&anthropic).unwrap().message,
        "C is not an OpenAI-compatible audio transcription provider in this version"
    );
    let ok = cfg("o", AiProviderType::OpenAi, 0, vec![ProviderCapability::Transcription]);
    assert!(transcription_precheck(&ok).is_none());
    assert_eq!(missing_key_message("O"), "O API key not set");
    assert_eq!(probe_test_result("O", Ok(())).message, "O audio transcription endpoint is ready");
    assert_eq!(probe_test_result("O", Err("x".into())).message, "x");
    assert_eq!(health_test_result("O", Ok(())).message, "O is ready");
    assert_eq!(health_test_result("O", Err(AiProviderError::Cancelled)).message, "request cancelled");
}

#[test]
fn provider_test_inputs() {
    let input = ProviderTestInput {
        provider: ProviderConfigInput {
            id: Some("p".into()),
            label: "P".into(),
            provider_type: AiProviderType::OpenAi,
            base_url: None,
            default_model: "m".into(),
            enabled: true,
            priority: 0,
            capabilities: vec![],
            api_key_ref: None,
            api_key: Some(" sk ".into()),
            clear_api_key: false,
        },
        capability: None,
    };
    assert_eq!(test_capability(&input), ProviderCapability::Text);
    let c = cfg("p", AiProviderType::OpenAi, 0, vec![]);
    assert_eq!(
        test_key_to_store(&input.provider, &c),
        Some(("ai.provider.p.apiKey".to_string(), " sk ".to_string()))
    );
}

#[test]
fn gateway_defaults_follow_the_capability() {
    let retry = || WorkspaceRetryConfig { max_attempts_per_provider: Some(4), retry_backoff_ms: None };
    let g = build_gateway_provider(default_provider_settings(), retry(), "summary".into(), ProviderCapability::Text, None, None);
    assert_eq!(g.preferred_provider_id.as_deref(), Some("openai"));
    assert_eq!(g.timeout_ms, Some(120_000));
    assert_eq!(g.provider_type(), AiProviderType::OpenAi);
    assert!(g.supports(ProviderCapability::Text));
    assert!(!g.supports(ProviderCapability::Vision));
    let ctx = g.request_context(" ");
    assert_eq!(ctx.preferred_model, None);
    assert_eq!(ctx.max_attempts_per_provider, 4);
    assert_eq!(ctx.retry_backoff_ms, 1200);
    assert_eq!(g.health_candidates().len(), 1);
    let v = build_gateway_provider(default_provider_settings(), retry(), "x".into(), ProviderCapability::Vision, None, None);
    assert_eq!(v.preferred_provider_id, None);
}

#[test]
fn transcription_targets() {
    let settings = ProviderSettings {
        default_text_provider_id: None,
        default_transcription_provider_id: Some("b".into()),
        providers: vec![
            cfg("a", AiProviderType::OpenAi, 0, vec![ProviderCapability::Transcription]),
            cfg("b", AiProviderType::OpenAi, 1, vec![ProviderCapability::Transcription]),
            cfg("c", AiProviderType::Anthropic, 2, vec![ProviderCapability::Transcription]),
            cfg("d", AiProviderType::OpenAi, 3, vec![ProviderCapability::Text]),
        ],
    };
    let ids = |v: Vec<ProviderConfig>| v.into_iter().map(|c| c.id).collect::<Vec<_>>();
    assert_eq!(ids(transcription_candidates(&settings, None)), vec!["b", "a"]);
    assert_eq!(ids(transcription_candidates(&settings, Some(" a "))), vec!["a", "b"]);
    let cands = transcription_candidates(&settings, None);
    let (targets, skipped) = targets_from_keys(cands, vec![None, Some("k".into())]);
    assert_eq!(targets.len(), 1);
    assert_eq!(targets[0].config.id, "a");
    assert_eq!(skipped, vec!["B: API key not set".to_string()]);
    assert_eq!(
        no_transcription_provider_message(&skipped),
        "No OpenAI-compatible transcription provider is configured: B: API key not set"
    );
    assert_eq!(no_transcription_provider_message(&vec![]), "No OpenAI-compatible transcription provider is configured");
    let legacy = legacy_target("k".into());
    assert_eq!(legacy.config.default_model, "whisper-1");
}

#[test]
fn targets_win_over_the_legacy_key_which_wins_over_the_error() {
    let t = TranscriptionProviderTarget {
        config: cfg("mine", AiProviderType::OpenAi, 0, vec![ProviderCapability::Transcription]),
        api_key: "k1".into(),
    };
    let chosen = chosen_transcription_targets(vec![t], &vec![], Some("legacy".into())).unwrap();
    assert_eq!(chosen.len(), 1);
    assert_eq!(chosen[0].config.id, "mine");
    let legacy = chosen_transcription_targets(vec![], &vec!["X: API key not set".into()], Some("legacy".into())).unwrap();
    assert_eq!(legacy.len(), 1);
    assert_eq!(legacy[0].config.id, "openai");
    assert_eq!(legacy[0].config.default_model, "whisper-1");
    assert_eq!(legacy[0].api_key, "legacy");
    assert_eq!(
        chosen_transcription_targets(vec![], &vec!["X: API key not set".into()], None).unwrap_err(),
        "No OpenAI-compatible transcription provider is configured: X: API key not set"
    );
    assert_eq!(
        chosen_transcription_targets(vec![], &vec![], None).unwrap_err(),
        "No OpenAI-compatible transcription provider is configured"
    );
}
