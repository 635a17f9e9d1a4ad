use my_media_kit::paths::normalized_path;
use my_media_kit::model::TranscriptionSegment;
use my_media_kit::state::{AppState, TranscriptCacheKey, TranscriptEntry};

fn entry(backend: &str, provider: Option<&str>, model: &str, text: &str) -> TranscriptEntry {
    TranscriptEntry {
        backend: backend.into(),
        provider_id: provider.map(|p| p.to_string()),
        model: model.into(),
        language: Some("en".into()),
        segments: vec![TranscriptionSegment::new(0, 1_000, text)],
    }
}

#[test]
fn pcm_round_trip() {
    let mut s: AppState<Vec<f32>> = AppState::new();
    let p = "/tmp/video.mov".to_string();
    assert!(s.pcm_get(&p).is_none());
    s.pcm_put(p.clone(), vec![0.1, 0.2, 0.3]);
    let got = s.pcm_get(&p).unwrap();
    assert_eq!(got.as_slice(), &[0.1, 0.2, 0.3]);
}

#[test]
fn transcript_round_trip() {
    let mut s: AppState<Vec<f32>> = AppState::new();
    let p = "/tmp/video.mov".to_string();
    let entry = TranscriptEntry {
        backend: "openai".into(),
        provider_id: Some("openai".into()),
        model: "whisper-1".into(),
        language: Some("en".into()),
        segments: vec![TranscriptionSegment::new(0, 1_000, "hello")],
    };
    let key = TranscriptCacheKey::new(p.clone(), "openai".into(), Some("openai".into()), "whisper-1".into());
    let key2 = TranscriptCacheKey::new(p.clone(), "openai".into(), Some("openai".into()), "whisper-1".into());
    s.transcript_put(key, entry);
    let got = s.transcript_get(&key2).unwrap();
    assert_eq!(got.segments.len(), 1);
    assert_eq!(got.language.as_deref(), Some("en"));
}

#[test]
fn clear_for_drops_both_caches() {
    let mut s: AppState<Vec<f32>> = AppState::new();
    let p = "/tmp/x.mov".to_string();
    s.pcm_put(p.clone(), vec![0.0]);
    let key = TranscriptCacheKey::new(
        p.clone(),
        "mlx".into(),
        Some("mlx".into()),
        "mlx-community/whisper-large-v3-turbo".into(),
    );
    s.transcript_put(
        key,
        TranscriptEntry {
            backend: "mlx".into(),
            provider_id: Some("mlx".into()),
            model: "mlx-community/whisper-large-v3-turbo".into(),
            language: None,
            segments: vec![],
        },
    );
    s.clear_for(&p);
    assert!(s.pcm_get(&p).is_none());
    assert!(s.is_empty());
}

#[test]
fn blank_provider_ids_file_under_no_provider() {
    let a = TranscriptCacheKey::new("f".into(), "b".into(), Some("   ".into()), "m".into());
    let b = TranscriptCacheKey::new("f".into(), "b".into(), None, "m".into());
    assert!(a.same_as(&b));
    let c = TranscriptCacheKey::new("f".into(), "b".into(), Some(" x ".into()), "m".into());
    assert_eq!(c.provider_id.as_deref(), Some("x"));
}

#[test]
fn other_providers_are_not_reused_or_overwritten() {
    let mut s: AppState<Vec<f32>> = AppState::new();
    let k1 = || TranscriptCacheKey::new("f".into(), "cloud".into(), Some("a".into()), "m".into());
    let k2 = || TranscriptCacheKey::new("f".into(), "cloud".into(), Some("b".into()), "m".into());
    s.transcript_put(k1(), entry("cloud", Some("a"), "m", "from a"));
    assert!(s.transcript_get(&k2()).is_none());
    s.transcript_put(k2(), entry("cloud", Some("b"), "m", "from b"));
    assert_eq!(s.transcript_get(&k1()).unwrap().segments[0].text, "from a");
    s.transcript_put(k1(), entry("cloud", Some("a"), "m", "again"));
    assert_eq!(s.transcript_get(&k1()).unwrap().segments[0].text, "again");
    assert_eq!(s.transcript_get(&k2()).unwrap().segments[0].text, "from b");
}

#[test]
fn clearing_one_clip_keeps_the_others() {
    let mut s: AppState<Vec<f32>> = AppState::default();
    s.transcript_put(TranscriptCacheKey::new("a".into(), "x".into(), None, "m".into()), entry("x", None, "m", "A"));
    s.transcript_put(TranscriptCacheKey::new("b".into(), "x".into(), None, "m".into()), entry("x", None, "m", "B"));
    s.pcm_put("a".into(), vec![1.0]);
    s.pcm_put("b".into(), vec![2.0]);
    s.pcm_put("b".into(), vec![3.0]);
    s.clear_for("a");
    assert!(s.pcm_get("a").is_none());
    assert_eq!(s.pcm_get("b").unwrap().as_slice(), &[3.0]);
    assert!(s.transcript_get_any_for_path("a").is_none());
    assert_eq!(s.transcript_get_any_for_path("b").unwrap().segments[0].text, "B");
    s.clear_all();
    assert!(s.is_empty());
    assert!(s.pcm_get("b").is_none());
}

#[test]
fn paths_are_compared_by_component() {
    assert_eq!(normalized_path("/tmp//a.mov"), "/tmp/a.mov");
    assert_eq!(normalized_path("/tmp/./a.mov/"), "/tmp/a.mov");
    assert_eq!(normalized_path("./a/./b"), "./a/b");
    assert_eq!(normalized_path("a/../b"), "a/../b");
    assert_eq!(normalized_path("//"), "/");
    assert_eq!(normalized_path(""), "");
    let mut s: AppState<Vec<f32>> = AppState::new();
    s.transcript_put(
        TranscriptCacheKey::new("/tmp//a.mov".into(), "x".into(), None, "m".into()),
        entry("x", None, "m", "A"),
    );
    let same = TranscriptCacheKey::new("/tmp/a.mov".into(), "x".into(), None, "m".into());
    assert_eq!(s.transcript_get(&same).unwrap().segments[0].text, "A");
    assert!(s.transcript_get_any_for_path("/tmp/./a.mov").is_some());
    s.pcm_put("/tmp/a.mov".into(), vec![1.0]);
    assert_eq!(s.pcm_get("/tmp//a.mov").unwrap().as_slice(), &[1.0]);
    assert!(s.pcm_get("tmp/a.mov").is_none());
    s.clear_for("/tmp/a.mov/");
    assert!(s.is_empty());
    assert!(s.pcm_get("/tmp/a.mov").is_none());
}
