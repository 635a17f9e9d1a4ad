use std::collections::HashMap;

use my_media_kit::config::ProviderConfig;
use my_media_kit::gateway::{
    candidates_for, default_attempts_per_provider, default_retry_backoff_ms, is_retryable, pick_model,
    AIRequestContext, FallbackRun, GatewayCompletion,
};
use my_media_kit::model::{AiProviderError, AiProviderType, ProviderCapability};

fn provider(id: &str, label: &str, model: &str, priority: u32) -> ProviderConfig {
    ProviderConfig {
        id: id.into(),
        label: label.into(),
        provider_type: AiProviderType::OpenAi,
        base_url: None,
        default_model: model.into(),
        enabled: true,
        priority,
        capabilities: vec![ProviderCapability::Text],
        api_key_ref: None,
    }
}

fn context(max_attempts: u32) -> AIRequestContext {
    AIRequestContext {
        tool_name: "summary".into(),
        capability: ProviderCapability::Text,
        preferred_provider_id: None,
        preferred_provider: None,
        preferred_model: None,
        timeout_ms: None,
        metadata: HashMap::new(),
        max_attempts_per_provider: max_attempts,
        retry_backoff_ms: 1,
    }
}

fn text_value(text: &str) -> serde_json::Value {
    let mut map = serde_json::Map::new();
    map.insert("text".to_string(), serde_json::Value::String(text.to_string()));
    serde_json::Value::Object(map)
}

/// Drives a run the way the app does, with scripted outcomes per provider id.
fn drive(
    configs: &Vec<ProviderConfig>,
    ctx: &AIRequestContext,
    mut outcome: impl FnMut(&ProviderConfig) -> Result<serde_json::Value, AiProviderError>,
    waits: &mut Vec<u64>,
) -> Result<GatewayCompletion, AiProviderError> {
    let mut run = FallbackRun::start(configs, ctx, "")?;
    loop {
        let Some(cfg) = run.current_provider() else {
            return Err(run.exhausted_error());
        };
        run.on_resolved();
        loop {
            match outcome(&cfg) {
                Ok(value) => return Ok(run.on_success(value, 0)),
                Err(err) => match run.on_failure(err, 0) {
                    Some(wait) => waits.push(wait),
                    None => break,
                },
            }
        }
    }
}

#[test]
fn falls_back_to_second_provider_after_retryable_error() {
    let configs = vec![provider("one", "One", "a", 0), provider("two", "Two", "b", 1)];
    let ctx = context(1);
    let mut waits = Vec::new();
    let result = drive(
        &configs,
        &ctx,
        |cfg| {
            if cfg.id == "one" {
                Err(AiProviderError::Rejected("429 rate limit".into()))
            } else {
                Ok(text_value("done"))
            }
        },
        &mut waits,
    )
    .unwrap();
    assert_eq!(result.provider_id, "two");
    assert_eq!(result.attempts.len(), 2);
    assert!(result.attempts[0].retryable);
}

#[test]
fn retries_the_same_provider_with_growing_waits() {
    let configs = vec![provider("one", "One", "a", 0)];
    let mut ctx = context(3);
    ctx.retry_backoff_ms = 100;
    let mut calls = 0;
    let mut waits = Vec::new();
    let result = drive(
        &configs,
        &ctx,
        |_| {
            calls += 1;
            if calls < 3 {
                Err(AiProviderError::Network("reset".into()))
            } else {
                Ok(text_value("ok"))
            }
        },
        &mut waits,
    )
    .unwrap();
    assert_eq!(waits, vec![100, 200]);
    assert_eq!(result.attempts.len(), 3);
    assert_eq!(result.model, "a");
    assert!(result.attempts[2].success);
}

#[test]
fn non_retryable_errors_move_on_and_the_final_error_lists_failures() {
    let configs = vec![provider("one", "One", "a", 0), provider("two", "Two", "b", 1)];
    let ctx = context(5);
    let mut waits = Vec::new();
    let err = drive(
        &configs,
        &ctx,
        |_| Err(AiProviderError::Rejected("bad request".into())),
        &mut waits,
    )
    .unwrap_err();
    assert!(waits.is_empty());
    match err {
        AiProviderError::Rejected(m) => assert_eq!(
            m,
            "all providers failed for summary: One: request rejected: bad request | Two: request rejected: bad request"
        ),
        other => panic!("unexpected {other:?}"),
    }
}

#[test]
fn no_candidate_is_an_error() {
    let mut off = provider("one", "One", "a", 0);
    off.enabled = false;
    let configs = vec![off];
    match FallbackRun::start(&configs, &context(1), "") {
        Err(AiProviderError::Rejected(m)) => assert_eq!(m, "no enabled providers support Text for summary"),
        _ => panic!("expected a rejection"),
    }
}

#[test]
fn resolve_failure_is_recorded_and_skipped() {
    let configs = vec![provider("one", "One", "a", 0), provider("two", "Two", "b", 1)];
    let ctx = context(1);
    let mut run = FallbackRun::start(&configs, &ctx, "req-model").unwrap();
    run.on_resolve_failed(AiProviderError::MissingApiKey(AiProviderType::OpenAi));
    let cfg = run.current_provider().unwrap();
    assert_eq!(cfg.id, "two");
    assert_eq!(run.on_resolved(), "req-model");
    let done = run.on_success(text_value("x"), 7);
    assert_eq!(done.attempts.len(), 2);
    assert_eq!(done.attempts[0].error.as_deref(), Some("missing API key for OpenAi"));
    assert_eq!(done.attempts[0].duration_ms, 0);
    assert!(!done.attempts[0].retryable);
    assert_eq!(done.attempts[1].duration_ms, 7);
}

#[test]
fn preferred_provider_goes_first() {
    let configs = vec![provider("one", "One", "a", 0), provider("two", "Two", "b", 1)];
    let mut ctx = context(1);
    ctx.preferred_provider_id = Some("two".into());
    let order: Vec<String> = candidates_for(&configs, &ctx).into_iter().map(|c| c.id).collect();
    assert_eq!(order, vec!["two", "one"]);
}

#[test]
fn model_choice_prefers_context_then_request_then_default() {
    let cfg = provider("one", "One", "default", 0);
    let mut ctx = context(1);
    assert_eq!(pick_model(&ctx, "  ", &cfg), "default");
    assert_eq!(pick_model(&ctx, "req", &cfg), "req");
    ctx.preferred_model = Some(" ".into());
    assert_eq!(pick_model(&ctx, "req", &cfg), "req");
    ctx.preferred_model = Some("ctx".into());
    assert_eq!(pick_model(&ctx, "req", &cfg), "ctx");
}

#[test]
fn retryable_classification() {
    assert!(is_retryable(&AiProviderError::Network("x".into())));
    assert!(is_retryable(&AiProviderError::Cancelled));
    assert!(is_retryable(&AiProviderError::Rejected("Model is OVERLOADED".into())));
    assert!(is_retryable(&AiProviderError::Rejected("HTTP 503".into())));
    assert!(!is_retryable(&AiProviderError::Rejected("invalid request".into())));
    assert!(!is_retryable(&AiProviderError::InvalidResponse("429".into())));
    assert!(!is_retryable(&AiProviderError::NotAvailable(AiProviderType::Mlx)));
}

#[test]
fn context_defaults() {
    assert_eq!(default_attempts_per_provider(), 2);
    assert_eq!(default_retry_backoff_ms(), 1200);
}

#[test]
fn huge_waits_only_matter_when_a_retry_happens() {
    let mut ctx = context(2);
    ctx.retry_backoff_ms = 1u64 << 63;
    let none: Vec<ProviderConfig> = vec![];
    match FallbackRun::start(&none, &ctx, "") {
        Err(AiProviderError::Rejected(m)) => assert_eq!(m, "no enabled providers support Text for summary"),
        _ => panic!("no provider can serve the request"),
    }
    let configs = vec![provider("one", "One", "a", 0), provider("two", "Two", "b", 1)];
    let mut run = FallbackRun::start(&configs, &ctx, "").unwrap();
    run.on_resolved();
    assert_eq!(run.on_failure(AiProviderError::Rejected("503".into()), 0), Some(1u64 << 63));
    assert_eq!(run.on_failure(AiProviderError::Rejected("bad request".into()), 0), None);
    assert_eq!(run.current_provider().unwrap().id, "two");
}
