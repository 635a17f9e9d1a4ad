//! Transcription commands: cache keys, the answer given from a cached or a
//! fresh transcript, and the decisions taken while trying cloud providers
//! one after another.

use vstd::prelude::*;
use crate::config::opt_chars;
use crate::paths::path_key;
use crate::model::{TranscriptionSegment, copy_segments, first_language, segments_language};
use crate::providers::TranscriptionProviderTarget;
use crate::state::{AppState, EntryModel, KeyModel, TranscriptCacheKey, TranscriptEntry};
use crate::text::{chars_of, concat, contains, contains_chars, copy_opt_string, join, join_strings,
    lower, strings_view, to_lower_chars, trimmed_opt};

verus! {

/// What a transcription command answers.
#[derive(Debug)]
pub struct TranscribeOutput {
    pub language: Option<String>,
    pub segments: Vec<TranscriptionSegment>,
    pub from_cache: bool,
}

impl TranscribeOutput {
    /// The answer built from a cached or fresh transcript.
    pub fn from_entry(entry: &TranscriptEntry, from_cache: bool) -> (r: Self)
        ensures
            opt_chars(r.language) == entry@.language,
            r.segments@ == entry@.segments,
            r.from_cache == from_cache,
    {
        TranscribeOutput {
            language: copy_opt_string(&entry.language),
            segments: copy_segments(&entry.segments),
            from_cache,
        }
    }
}

/// The cache key of a clip for a backend, provider and model.
pub fn transcript_cache_key(path: &str, backend: &str, provider_id: Option<&str>, model: &str) -> (r:
    TranscriptCacheKey)
    ensures
        r@ == (KeyModel {
            path: path_key(path@),
            backend: backend@,
            provider_id: trimmed_opt(
                match provider_id {
                    Some(p) => Some(p@),
                    None => None,
                },
            ),
            model: model@,
        }),
{
    TranscriptCacheKey::new(
        path.to_owned(),
        backend.to_owned(),
        match provider_id {
            Some(p) => Some(p.to_owned()),
            None => None,
        },
        model.to_owned(),
    )
}

/// A failure that another provider might not have: a missing audio
/// endpoint, a passing outage, a key problem, a rate limit or a timeout.
pub open spec fn worth_next_provider(message: Seq<char>) -> bool {
    let l = lower(message);
    ||| contains(l, "does not expose an openai-compatible audio transcription endpoint"@)
    ||| contains(l, "temporarily unavailable"@)
    ||| contains(l, "invalid api key"@)
    ||| contains(l, "permission denied"@)
    ||| contains(l, "429"@)
    ||| contains(l, "500"@)
    ||| contains(l, "502"@)
    ||| contains(l, "503"@)
    ||| contains(l, "504"@)
    ||| contains(l, "timeout"@)
    ||| contains(l, "timed out"@)
    ||| contains(l, "rate limit"@)
}

fn has(l: &Vec<char>, needle: &str) -> (r: bool)
    ensures
        r == contains(l@, needle@),
{
    contains_chars(l, &chars_of(needle))
}

/// Whether a cloud transcription failure should move on to the next
/// provider (see [`worth_next_provider`]).
pub fn should_try_next_transcription_provider(message: &str) -> (r: bool)
    ensures
        r == worth_next_provider(message@),
{
    let l = to_lower_chars(&chars_of(message));
    has(&l, "does not expose an openai-compatible audio transcription endpoint") || has(
        &l,
        "temporarily unavailable",
    ) || has(&l, "invalid api key") || has(&l, "permission denied") || has(&l, "429") || has(
        &l,
        "500",
    ) || has(&l, "502") || has(&l, "503") || has(&l, "504") || has(&l, "timeout") || has(
        &l,
        "timed out",
    ) || has(&l, "rate limit")
}

/// The cache key asked for when looking up a transcript with some of backend,
/// provider and model given: the cloud backend and `whisper-1` by default.
pub open spec fn lookup_key(
    path: Seq<char>,
    backend: Option<Seq<char>>,
    provider_id: Option<Seq<char>>,
    model: Option<Seq<char>>,
) -> KeyModel {
    KeyModel {
        path: path_key(path),
        backend: match backend {
            Some(b) => b,
            None => "openai-compatible-audio"@,
        },
        provider_id: trimmed_opt(provider_id),
        model: match model {
            Some(m) => m,
            None => "whisper-1"@,
        },
    }
}

/// The cached transcript of a clip: with no backend, provider or model
/// given, any transcript of that clip; else the one filed under
/// [`lookup_key`]. The answer is marked as coming from the cache.
pub fn get_cached_transcript<S>(
    state: &AppState<S>,
    path: &str,
    backend: Option<String>,
    provider_id: Option<String>,
    model: Option<String>,
) -> (r: Option<TranscribeOutput>)
    ensures
        r matches Some(o) ==> o.from_cache,
        (backend is None && provider_id is None && model is None) ==> {
            &&& (r is None <==> forall|k: KeyModel| #[trigger]
                state.view().contains_key(k) ==> k.path != path_key(path@))
            &&& r matches Some(o) ==> exists|k: KeyModel|
                #[trigger] state.view().contains_key(k) && k.path == path_key(path@) && state.view()[k].segments
                    == o.segments@ && state.view()[k].language == opt_chars(o.language)
        },
        !(backend is None && provider_id is None && model is None) ==> {
            let k = lookup_key(path@, opt_chars(backend), opt_chars(provider_id), opt_chars(model));
            &&& (r is Some <==> state.view().contains_key(k))
            &&& r matches Some(o) ==> state.view()[k].segments == o.segments@
                && state.view()[k].language == opt_chars(o.language)
        },
{
    if backend.is_none() && provider_id.is_none() && model.is_none() {
        return match state.transcript_get_any_for_path(path) {
            Some(e) => Some(TranscribeOutput::from_entry(&e, true)),
            None => None,
        };
    }
    let backend = match backend {
        Some(b) => b,
        None => "openai-compatible-audio".to_owned(),
    };
    let model = match model {
        Some(m) => m,
        None => "whisper-1".to_owned(),
    };
    let key = TranscriptCacheKey::new(path.to_owned(), backend, provider_id, model);
    match state.transcript_get(&key) {
        Some(e) => Some(TranscribeOutput::from_entry(&e, true)),
        None => None,
    }
}

/// Clears what is cached (audio samples and transcripts) for one clip, or
/// for every clip.
pub fn clear_cache<S>(state: &mut AppState<S>, path: Option<String>)
    ensures
        path is None ==> final(state).view() == Map::<KeyModel, EntryModel>::empty()
            && final(state).samples() == Map::<Seq<char>, S>::empty(),
        path matches Some(p) ==> {
            &&& final(state).samples() == old(state).samples().remove(path_key(p@))
            &&& forall|k: KeyModel| #[trigger]
                final(state).view().contains_key(k) <==> (old(state).view().contains_key(k) && k.path
                    != path_key(p@))
            &&& forall|k: KeyModel| #[trigger]
                final(state).view().contains_key(k) ==> final(state).view()[k] == old(state).view()[k]
        },
{
    match path {
        Some(p) => state.clear_for(p.as_str()),
        None => state.clear_all(),
    }
}

/// What the platform offers for local transcription.
#[derive(Debug)]
pub struct PlatformInfo {
    pub is_apple_silicon: bool,
    pub mlx_runtime_available: bool,
}

/// The platform report: the local runtime counts only on Apple Silicon.
pub fn platform_info(is_apple_silicon: bool, runtime_installed: bool) -> (r: PlatformInfo)
    ensures
        r.is_apple_silicon == is_apple_silicon,
        r.mlx_runtime_available == (is_apple_silicon && runtime_installed),
{
    PlatformInfo { is_apple_silicon, mlx_runtime_available: is_apple_silicon && runtime_installed }
}

/// The answer of the local backend off Apple Silicon.
pub fn mlx_unavailable_message() -> (r: String)
    ensures
        r@ == "mlx_whisper backend is only available on Apple Silicon (macOS aarch64)"@,
{
    "mlx_whisper backend is only available on Apple Silicon (macOS aarch64)".to_owned()
}

/// The local backend's model: the requested one, else large-v3-turbo.
pub fn mlx_model_id(model: Option<&str>) -> (r: String)
    ensures
        r@ == match model {
            Some(m) => m@,
            None => "mlx-community/whisper-large-v3-turbo"@,
        },
{
    match model {
        Some(m) => m.to_owned(),
        None => "mlx-community/whisper-large-v3-turbo".to_owned(),
    }
}

/// The cache entry of a local transcription.
pub fn mlx_entry(model_id: String, segments: Vec<TranscriptionSegment>) -> (r: TranscriptEntry)
    ensures
        r@.backend == "mlx"@,
        r@.provider_id == Some("mlx"@),
        r@.model == model_id@,
        r@.segments == segments@,
        r@.language == segments_language(segments@),
{
    let language = first_language(&segments);
    TranscriptEntry {
        backend: "mlx".to_owned(),
        provider_id: Some("mlx".to_owned()),
        model: model_id,
        language,
        segments,
    }
}

/// The model asked of a cloud provider: the requested one, else the
/// provider's default model.
pub fn cloud_model(model: Option<&str>, target: &TranscriptionProviderTarget) -> (r: String)
    ensures
        r@ == match model {
            Some(m) => m@,
            None => target.config@.default_model,
        },
{
    match model {
        Some(m) => m.to_owned(),
        None => target.config.default_model.clone(),
    }
}

/// The cache key of a cloud transcription by a provider with a model.
pub fn cloud_cache_key(path: &str, target: &TranscriptionProviderTarget, model_id: &str) -> (r:
    TranscriptCacheKey)
    ensures
        r@ == (KeyModel {
            path: path_key(path@),
            backend: "openai-compatible-audio"@,
            provider_id: trimmed_opt(Some(target.config@.id)),
            model: model_id@,
        }),
{
    transcript_cache_key(path, "openai-compatible-audio", Some(target.config.id.as_str()), model_id)
}

/// The cache entry of a cloud transcription.
pub fn cloud_entry(
    target: &TranscriptionProviderTarget,
    model_id: String,
    segments: Vec<TranscriptionSegment>,
) -> (r: TranscriptEntry)
    ensures
        r@.backend == "openai-compatible-audio"@,
        r@.provider_id == Some(target.config@.id),
        r@.model == model_id@,
        r@.segments == segments@,
        r@.language == segments_language(segments@),
{
    let language = first_language(&segments);
    TranscriptEntry {
        backend: "openai-compatible-audio".to_owned(),
        provider_id: Some(target.config.id.clone()),
        model: model_id,
        language,
        segments,
    }
}

/// Records a cloud provider's failure as `<label>: <error>` and says whether
/// to move on to the next provider (else the error is the answer).
pub fn record_cloud_failure(failures: &mut Vec<String>, label: &str, err: &str) -> (r: bool)
    ensures
        strings_view(final(failures)@) == strings_view(old(failures)@).push(label@ + ": "@ + err@),
        r == worth_next_provider(err@),
{
    let a = concat(label, ": ");
    let line = concat(a.as_str(), err);
    let ghost before = failures@;
    failures.push(line);
    assert(strings_view(failures@) =~= strings_view(before).push(line@));
    should_try_next_transcription_provider(err)
}

/// The answer when no cloud provider could transcribe.
pub fn cloud_exhausted_message(failures: &Vec<String>) -> (r: String)
    ensures
        r@ == "No working cloud transcription provider is available: "@ + join(
            strings_view(failures@),
            " | "@,
        ),
{
    let j = join_strings(failures, " | ");
    concat("No working cloud transcription provider is available: ", j.as_str())
}

/// The answer from the cache for a transcription step: when the step may use
/// the cache and a transcript is filed under `key`, that transcript, marked
/// as coming from the cache; else none, and the step goes on to transcribe.
pub fn cached_answer<S>(state: &AppState<S>, key: &TranscriptCacheKey, use_cache: bool) -> (r: Option<
    TranscribeOutput,
>)
    ensures
        r is Some <==> (use_cache && state.view().contains_key(key@)),
        r matches Some(o) ==> o.from_cache && o.segments@ == state.view()[key@].segments && opt_chars(
            o.language,
        ) == state.view()[key@].language,
{
    if !use_cache {
        return None;
    }
    match state.transcript_get(key) {
        Some(e) => Some(TranscribeOutput::from_entry(&e, true)),
        None => None,
    }
}

/// What a cloud transcription does next.
#[derive(Debug)]
pub enum CloudStep {
    /// Try this provider with this model: first answer with the transcript
    /// cached under `cache_key` when `use_cache` holds and one is there, else
    /// probe the provider's audio endpoint and transcribe; report a failure
    /// with [`CloudTranscription::on_failure`], and file a transcript built
    /// by [`CloudTranscription::entry`] under `cache_key`.
    Try {
        target: TranscriptionProviderTarget,
        model: String,
        cache_key: TranscriptCacheKey,
        use_cache: bool,
    },
    /// No provider is left: this is the answer.
    GiveUp(String),
}

/// A cloud transcription's passage through the transcription providers, in
/// the order given.
pub struct CloudTranscription {
    path: String,
    model: Option<String>,
    refresh: bool,
    targets: Vec<TranscriptionProviderTarget>,
    current: usize,
    failures: Vec<String>,
}

/// The providers of a list of targets.
pub open spec fn target_configs(s: Seq<TranscriptionProviderTarget>) -> Seq<crate::config::ConfigModel> {
    s.map_values(|t: TranscriptionProviderTarget| t.config@)
}

/// The API keys of a list of targets.
pub open spec fn target_keys(s: Seq<TranscriptionProviderTarget>) -> Seq<Seq<char>> {
    s.map_values(|t: TranscriptionProviderTarget| t.api_key@)
}

impl CloudTranscription {
    #[verifier::type_invariant]
    spec fn within_targets(&self) -> bool {
        self.current <= self.targets.len()
    }

    /// The providers, in the order they are tried.
    pub closed spec fn configs(&self) -> Seq<crate::config::ConfigModel> {
        target_configs(self.targets@)
    }

    /// The API key of each provider.
    pub closed spec fn keys(&self) -> Seq<Seq<char>> {
        target_keys(self.targets@)
    }

    /// The position of the provider being tried.
    pub closed spec fn current(&self) -> int {
        self.current as int
    }

    /// One line per failure so far.
    pub closed spec fn failures(&self) -> Seq<Seq<char>> {
        strings_view(self.failures@)
    }

    /// The clip being transcribed.
    pub closed spec fn path(&self) -> Seq<char> {
        self.path@
    }

    /// The model asked for, if any.
    pub closed spec fn model(&self) -> Option<Seq<char>> {
        opt_chars(self.model)
    }

    /// Whether cached transcripts are ignored.
    pub closed spec fn refresh(&self) -> bool {
        self.refresh
    }

    /// The model used with the provider at position `i`.
    pub open spec fn model_at(&self, i: int) -> Seq<char> {
        match self.model() {
            Some(m) => m,
            None => self.configs()[i].default_model,
        }
    }

    /// The cache key of the transcript of the provider at position `i`.
    pub open spec fn key_at(&self, i: int) -> KeyModel {
        KeyModel {
            path: path_key(self.path()),
            backend: "openai-compatible-audio"@,
            provider_id: trimmed_opt(Some(self.configs()[i].id)),
            model: self.model_at(i),
        }
    }

    /// Starts a cloud transcription of the clip at `path` over `targets`;
    /// `force` set to true ignores cached transcripts.
    pub fn start(path: &str, targets: Vec<TranscriptionProviderTarget>, model: Option<String>, force: Option<bool>) -> (r: Self)
        ensures
            r.configs() == target_configs(targets@),
            r.keys() == target_keys(targets@),
            r.current() == 0,
            r.failures().len() == 0,
            r.path() == path@,
            r.model() == opt_chars(model),
            r.refresh() == (force == Some(true)),
    {
        let refresh = match force {
            Some(f) => f,
            None => false,
        };
        let r = CloudTranscription { path: path.to_owned(), model, refresh, targets, current: 0, failures: Vec::new() };
        assert(strings_view(r.failures@) =~= Seq::<Seq<char>>::empty());
        r
    }

    /// The next step: try the current provider, or give up once every
    /// provider failed, listing the failures.
    pub fn next_step(&self) -> (r: CloudStep)
        ensures
            self.current() < self.configs().len() ==> (r matches CloudStep::Try {
                target,
                model,
                cache_key,
                use_cache,
            } && target.config@ == self.configs()[self.current()] && target.api_key@ == self.keys()[self.current()]
                && model@ == self.model_at(self.current()) && cache_key@ == self.key_at(self.current())
                && use_cache == !self.refresh()),
            self.current() >= self.configs().len() ==> (r matches CloudStep::GiveUp(m) && m@
                == "No working cloud transcription provider is available: "@ + join(self.failures(), " | "@)),
    {
        proof {
            use_type_invariant(self);
        }
        if self.current < self.targets.len() {
            let t = &self.targets[self.current];
            assert(self.configs()[self.current()] == t.config@);
            assert(self.keys()[self.current()] == t.api_key@);
            let model = match &self.model {
                Some(m) => cloud_model(Some(m.as_str()), t),
                None => cloud_model(None, t),
            };
            let cache_key = cloud_cache_key(self.path.as_str(), t, model.as_str());
            let target = TranscriptionProviderTarget { config: t.config.duplicate(), api_key: t.api_key.clone() };
            CloudStep::Try { target, model, cache_key, use_cache: !self.refresh }
        } else {
            CloudStep::GiveUp(cloud_exhausted_message(&self.failures))
        }
    }

    /// The current provider failed with `err`: the failure is recorded as
    /// `<label>: <err>`; when another provider might not have it the run
    /// moves on and the answer is none, else the answer is `err` itself,
    /// which ends the transcription.
    pub fn on_failure(&mut self, err: String) -> (r: Option<String>)
        requires
            old(self).current() < old(self).configs().len(),
        ensures
            final(self).failures() == old(self).failures().push(
                old(self).configs()[old(self).current()].label + ": "@ + err@,
            ),
            worth_next_provider(err@) ==> r is None && final(self).current() == old(self).current() + 1,
            !worth_next_provider(err@) ==> (r matches Some(e) && e@ == err@) && final(self).current()
                == old(self).current(),
            final(self).configs() == old(self).configs(),
            final(self).keys() == old(self).keys(),
            final(self).path() == old(self).path(),
            final(self).model() == old(self).model(),
            final(self).refresh() == old(self).refresh(),
    {
        proof {
            use_type_invariant(&*self);
        }
        assert(old(self).configs()[old(self).current()] == self.targets@[self.current as int].config@);
        let mut failures: Vec<String> = Vec::new();
        std::mem::swap(&mut failures, &mut self.failures);
        let next = record_cloud_failure(&mut failures, self.targets[self.current].config.label.as_str(), err.as_str());
        self.failures = failures;
        if next {
            self.current = self.current + 1;
            None
        } else {
            Some(err)
        }
    }

    /// The transcript of the current provider: its segments, tagged with its
    /// id and the model used.
    pub fn entry(&self, segments: Vec<TranscriptionSegment>) -> (r: TranscriptEntry)
        requires
            self.current() < self.configs().len(),
        ensures
            r@ == (EntryModel {
                backend: "openai-compatible-audio"@,
                provider_id: Some(self.configs()[self.current()].id),
                model: self.model_at(self.current()),
                language: segments_language(segments@),
                segments: segments@,
            }),
    {
        proof {
            use_type_invariant(self);
        }
        let t = &self.targets[self.current];
        assert(self.configs()[self.current()] == t.config@);
        let model = match &self.model {
            Some(m) => cloud_model(Some(m.as_str()), t),
            None => cloud_model(None, t),
        };
        cloud_entry(t, model, segments)
    }
}

/// The answer when an imported subtitle file holds no segment.
pub fn empty_srt_message() -> (r: String)
    ensures
        r@ == "no segments found in SRT file"@,
{
    "no segments found in SRT file".to_owned()
}

/// A subtitle file's text without its UTF-8 byte-order mark.
pub fn strip_bom(content: &str) -> (r: String)
    ensures
        r@ == (if content@.len() > 0 && content@[0] == '\u{feff}' {
            content@.drop_first()
        } else {
            content@
        }),
{
    let v = chars_of(content);
    if v.len() > 0 && v[0] == '\u{feff}' {
        let rest = crate::text::slice_chars(&v, 1, v.len());
        assert(rest@ == v@.drop_first());
        crate::text::string_of(&rest)
    } else {
        content.to_owned()
    }
}

/// Files the segments read from a subtitle file as the clip's transcript
/// (backend `import-srt`, model `srt`, no provider or language) and answers
/// with them; an empty file is refused.
pub fn import_srt_segments<S>(state: &mut AppState<S>, path: &str, segments: Vec<TranscriptionSegment>) -> (r:
    Result<TranscribeOutput, String>)
    ensures
        segments@.len() == 0 ==> (r matches Err(m) && m@ == "no segments found in SRT file"@),
        segments@.len() == 0 ==> final(state).view() == old(state).view(),
        final(state).samples() == old(state).samples(),
        segments@.len() > 0 ==> {
            let k = KeyModel {
                path: path_key(path@),
                backend: "import-srt"@,
                provider_id: None,
                model: "srt"@,
            };
            let e = EntryModel {
                backend: "import-srt"@,
                provider_id: None,
                model: "srt"@,
                language: None,
                segments: segments@,
            };
            &&& final(state).view() == old(state).view().insert(k, e)
            &&& r matches Ok(o) && o.language is None && o.segments@ == segments@ && !o.from_cache
        },
{
    if segments.len() == 0 {
        return Err(empty_srt_message());
    }
    let entry = TranscriptEntry {
        backend: "import-srt".to_owned(),
        provider_id: None,
        model: "srt".to_owned(),
        language: None,
        segments,
    };
    let key = TranscriptCacheKey::new(path.to_owned(), "import-srt".to_owned(), None, "srt".to_owned());
    let stored = state.transcript_put(key, entry);
    Ok(TranscribeOutput::from_entry(&stored, false))
}

} // verus!
