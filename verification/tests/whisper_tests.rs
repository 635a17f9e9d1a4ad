use my_media_kit::whisper::{
    exceeds_upload_limit, is_unsupported_audio_endpoint, looks_like_html_not_found,
    normalize_openai_audio_base_url, probe_verdict, transcribe_verdict,
    unsupported_audio_endpoint_message, upload_file_name, whisper_model, OpenAiWhisperTranscriber,
};

#[test]
fn normalizes_full_chat_endpoint_to_v1_base() {
    assert_eq!(
        normalize_openai_audio_base_url("https://platform.beeknoee.com/api/v1/chat/completions"),
        "https://platform.beeknoee.com/api/v1"
    );
}

#[test]
fn preserves_v1_base() {
    assert_eq!(
        normalize_openai_audio_base_url("https://api.openai.com/v1"),
        "https://api.openai.com/v1"
    );
}

#[test]
fn detects_html_404_page() {
    assert!(looks_like_html_not_found("<!DOCTYPE html><html><title>404</title></html>"));
}

#[test]
fn normalization_appends_v1_to_a_bare_host() {
    assert_eq!(normalize_openai_audio_base_url("https://api.openai.com"), "https://api.openai.com/v1");
    assert_eq!(normalize_openai_audio_base_url("  https://api.openai.com//  "), "https://api.openai.com/v1");
}

#[test]
fn normalization_strips_known_endpoints() {
    assert_eq!(
        normalize_openai_audio_base_url("https://x.io/v1/audio/transcriptions/"),
        "https://x.io/v1"
    );
    assert_eq!(normalize_openai_audio_base_url("https://x.io/v1/models"), "https://x.io/v1");
    assert_eq!(normalize_openai_audio_base_url("https://x.io/v1/completions"), "https://x.io/v1");
    // A stripped endpoint that leaves no /v1 is not given one.
    assert_eq!(normalize_openai_audio_base_url("https://x.io/chat/completions"), "https://x.io");
}

#[test]
fn plain_error_bodies_are_not_html_pages() {
    assert!(!looks_like_html_not_found("{\"error\":\"not found\"}"));
    assert!(looks_like_html_not_found("This page could not be found."));
}

#[test]
fn unsupported_endpoint_needs_a_404_html_page() {
    assert!(is_unsupported_audio_endpoint(404, "<html>nope</html>"));
    assert!(!is_unsupported_audio_endpoint(500, "<html>nope</html>"));
    assert!(!is_unsupported_audio_endpoint(404, "{\"error\":1}"));
}

#[test]
fn probe_verdicts() {
    assert_eq!(probe_verdict(200, "200 OK", ""), Ok(()));
    assert_eq!(
        probe_verdict(404, "404 Not Found", "<!doctype html>"),
        Err(unsupported_audio_endpoint_message())
    );
    assert_eq!(
        probe_verdict(401, "401 Unauthorized", ""),
        Err("Audio transcription probe failed 401 Unauthorized: invalid API key or permission denied".to_string())
    );
    assert_eq!(
        probe_verdict(503, "503 Service Unavailable", ""),
        Err("Audio transcription probe failed 503 Service Unavailable: provider temporarily unavailable".to_string())
    );
    // A 400 on the probe's dummy file means the endpoint exists.
    assert_eq!(probe_verdict(400, "400 Bad Request", "bad audio"), Ok(()));
}

#[test]
fn transcribe_verdicts() {
    assert_eq!(transcribe_verdict(200, "200 OK", ""), Ok(()));
    assert_eq!(
        transcribe_verdict(400, "400 Bad Request", "bad audio"),
        Err("OpenAI Whisper error 400 Bad Request: bad audio".to_string())
    );
}

#[test]
fn transcriber_defaults_and_urls() {
    let t = OpenAiWhisperTranscriber::new("key".to_string());
    assert_eq!(t.base_url, "https://api.openai.com");
    assert_eq!(t.normalized_base_url(), "https://api.openai.com/v1");
    let t = t.with_base_url("https://x.io/v1/chat/completions".to_string());
    assert_eq!(t.api_key, "key");
    assert_eq!(t.transcriptions_url(), "https://x.io/v1/audio/transcriptions");
}

#[test]
fn upload_rules() {
    assert!(!exceeds_upload_limit(25 * 1024 * 1024));
    assert!(exceeds_upload_limit(25 * 1024 * 1024 + 1));
    assert_eq!(whisper_model(None), "whisper-1");
    assert_eq!(whisper_model(Some("gpt-4o-transcribe")), "gpt-4o-transcribe");
    assert_eq!(upload_file_name(None), "audio.mp3");
    assert_eq!(upload_file_name(Some("clip.mp3")), "clip.mp3");
}
