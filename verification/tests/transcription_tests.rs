use my_media_kit::config::ProviderConfig;
use my_media_kit::model::{segment_from_response, AiProviderType, ProviderCapability, TranscriptionSegment};
use my_media_kit::providers::TranscriptionProviderTarget;
use my_media_kit::state::{AppState, TranscriptCacheKey, TranscriptEntry};
use my_media_kit::transcription::{
    clear_cache, cloud_cache_key, cloud_entry, cloud_exhausted_message, cloud_model,
    get_cached_transcript, import_srt_segments, mlx_entry, mlx_model_id, platform_info,
    record_cloud_failure, should_try_next_transcription_provider, strip_bom, transcript_cache_key,
    cached_answer, CloudStep, CloudTranscription, TranscribeOutput,
};
use my_media_kit::whisper::unsupported_audio_endpoint_message;

fn target(id: &str) -> TranscriptionProviderTarget {
    TranscriptionProviderTarget {
        config: ProviderConfig {
            id: id.into(),
            label: id.to_uppercase(),
            provider_type: AiProviderType::OpenAi,
            base_url: None,
            default_model: "whisper-1".into(),
            enabled: true,
            priority: 0,
            capabilities: vec![ProviderCapability::Transcription],
            api_key_ref: None,
        },
        api_key: "k".into(),
    }
}

fn segment(text: &str, lang: Option<&str>) -> TranscriptionSegment {
    let mut s = TranscriptionSegment::new(0, 10, text);
    s.language = lang.map(|l| l.to_string());
    s
}

#[test]
fn next_provider_on_passing_or_key_failures() {
    assert!(should_try_next_transcription_provider(&unsupported_audio_endpoint_message()));
    assert!(should_try_next_transcription_provider("OpenAI Whisper error 429 Too Many Requests: slow down"));
    assert!(should_try_next_transcription_provider("request Timed Out"));
    assert!(!should_try_next_transcription_provider("cannot read audio file: missing"));
}

#[test]
fn cached_lookup_defaults_to_cloud_whisper() {
    let mut state: AppState<Vec<f32>> = AppState::new();
    let key = transcript_cache_key("/v.mov", "openai-compatible-audio", Some("openai"), "whisper-1");
    state.transcript_put(key, cloud_entry(&target("openai"), "whisper-1".into(), vec![segment("hi", Some("en"))]));
    let hit = get_cached_transcript(&state, "/v.mov", None, Some("openai".into()), None).unwrap();
    assert!(hit.from_cache);
    assert_eq!(hit.language.as_deref(), Some("en"));
    assert!(get_cached_transcript(&state, "/v.mov", None, Some("other".into()), None).is_none());
    let any = get_cached_transcript(&state, "/v.mov", None, None, None).unwrap();
    assert_eq!(any.segments[0].text, "hi");
    assert!(get_cached_transcript(&state, "/w.mov", None, None, None).is_none());
    clear_cache(&mut state, Some("/v.mov".into()));
    assert!(get_cached_transcript(&state, "/v.mov", None, None, None).is_none());
}

#[test]
fn clear_cache_without_path_clears_everything() {
    let mut state: AppState<Vec<f32>> = AppState::new();
    state.transcript_put(TranscriptCacheKey::new("a".into(), "b".into(), None, "m".into()), mlx_entry("m".into(), vec![]));
    state.pcm_put("a".into(), vec![0.5]);
    clear_cache(&mut state, None);
    assert!(state.is_empty());
    assert!(state.pcm_get("a").is_none());
}

#[test]
fn entries_take_the_first_language() {
    let e = mlx_entry("m".into(), vec![segment("a", None), segment("b", Some("vi")), segment("c", Some("en"))]);
    assert_eq!(e.language.as_deref(), Some("vi"));
    assert_eq!(e.provider_id.as_deref(), Some("mlx"));
    let out = TranscribeOutput::from_entry(&e, false);
    assert_eq!(out.segments.len(), 3);
    assert!(!out.from_cache);
}

#[test]
fn cloud_helpers() {
    let t = target("beeknoee");
    assert_eq!(cloud_model(None, &t), "whisper-1");
    assert_eq!(cloud_model(Some("m2"), &t), "m2");
    let k = cloud_cache_key("/v", &t, "m2");
    assert_eq!(k.backend, "openai-compatible-audio");
    assert_eq!(k.provider_id.as_deref(), Some("beeknoee"));
    let mut failures = Vec::new();
    assert!(record_cloud_failure(&mut failures, "A", "provider temporarily unavailable"));
    assert!(!record_cloud_failure(&mut failures, "B", "bad file"));
    assert_eq!(
        cloud_exhausted_message(&failures),
        "No working cloud transcription provider is available: A: provider temporarily unavailable | B: bad file"
    );
    assert_eq!(mlx_model_id(None), "mlx-community/whisper-large-v3-turbo");
}

#[test]
fn platform_report() {
    assert!(!platform_info(false, true).mlx_runtime_available);
    assert!(platform_info(true, true).mlx_runtime_available);
}

#[test]
fn srt_import_files_segments_and_refuses_empty_files() {
    let mut state: AppState<Vec<f32>> = AppState::new();
    assert_eq!(
        import_srt_segments(&mut state, "/s.srt", vec![]).unwrap_err(),
        "no segments found in SRT file"
    );
    let out = import_srt_segments(&mut state, "/s.srt", vec![segment("one", None)]).unwrap();
    assert_eq!(out.segments.len(), 1);
    assert!(!out.from_cache);
    let key = TranscriptCacheKey::new("/s.srt".into(), "import-srt".into(), None, "srt".into());
    let e: TranscriptEntry = state.transcript_get(&key).unwrap();
    assert_eq!(e.model, "srt");
    assert_eq!(strip_bom("\u{feff}1\n"), "1\n");
    assert_eq!(strip_bom("1\n"), "1\n");
}

#[test]
fn response_segments_are_trimmed_and_tagged() {
    let s = segment_from_response(1500, 2500, "  hello there \n", &Some("en".to_string()));
    assert_eq!(s.text, "hello there");
    assert_eq!((s.start_ms, s.end_ms), (1500, 2500));
    assert_eq!(s.language.as_deref(), Some("en"));
}

#[test]
fn cloud_run_moves_past_passing_failures_and_stops_on_others() {
    let mut run = CloudTranscription::start("/v.mov", vec![target("a"), target("b"), target("c")], None, None);
    match run.next_step() {
        CloudStep::Try { target, model, cache_key, use_cache } => {
            assert_eq!(target.config.id, "a");
            assert_eq!(model, "whisper-1");
            assert_eq!(cache_key.path, "/v.mov");
            assert_eq!(cache_key.backend, "openai-compatible-audio");
            assert_eq!(cache_key.provider_id.as_deref(), Some("a"));
            assert!(use_cache);
        }
        CloudStep::GiveUp(_) => panic!("a provider is left"),
    }
    assert_eq!(run.on_failure("Audio transcription probe failed 503: provider temporarily unavailable".into()), None);
    match run.next_step() {
        CloudStep::Try { target, .. } => assert_eq!(target.config.id, "b"),
        CloudStep::GiveUp(_) => panic!("a provider is left"),
    }
    assert_eq!(run.on_failure("cannot read audio file: gone".into()), Some("cannot read audio file: gone".to_string()));
    let entry = run.entry(vec![segment("x", Some("fr"))]);
    assert_eq!(entry.provider_id.as_deref(), Some("b"));
    assert_eq!(entry.language.as_deref(), Some("fr"));
}

#[test]
fn cloud_run_gives_up_listing_every_failure() {
    let mut run = CloudTranscription::start("/v.mov", vec![target("a"), target("b")], Some("m2".into()), Some(true));
    match run.next_step() {
        CloudStep::Try { model, use_cache, .. } => {
            assert_eq!(model, "m2");
            assert!(!use_cache);
        }
        CloudStep::GiveUp(_) => panic!("a provider is left"),
    }
    assert_eq!(run.on_failure("429 rate limit".into()), None);
    assert_eq!(run.on_failure("request timed out".into()), None);
    match run.next_step() {
        CloudStep::GiveUp(message) => assert_eq!(
            message,
            "No working cloud transcription provider is available: A: 429 rate limit | B: request timed out"
        ),
        CloudStep::Try { .. } => panic!("no provider is left"),
    }
    let empty = CloudTranscription::start("/v.mov", vec![], None, None);
    match empty.next_step() {
        CloudStep::GiveUp(message) => assert_eq!(message, "No working cloud transcription provider is available: "),
        CloudStep::Try { .. } => panic!("no provider is given"),
    }
}

#[test]
fn a_step_answers_from_the_cache_only_when_allowed() {
    let mut state: AppState<Vec<f32>> = AppState::new();
    let key = transcript_cache_key("/v.mov", "openai-compatible-audio", Some("a"), "whisper-1");
    assert!(cached_answer(&state, &key, true).is_none());
    state.transcript_put(
        transcript_cache_key("/v.mov", "openai-compatible-audio", Some("a"), "whisper-1"),
        cloud_entry(&target("a"), "whisper-1".into(), vec![segment("hi", Some("en"))]),
    );
    let hit = cached_answer(&state, &key, true).unwrap();
    assert!(hit.from_cache);
    assert_eq!(hit.language.as_deref(), Some("en"));
    assert!(cached_answer(&state, &key, false).is_none());
}
