//! Shared vocabulary: provider kinds, capabilities, provider errors and
//! transcription segments.

use vstd::prelude::*;
use crate::search::{find_first, lemma_find_first_end, lemma_find_first_hit, lemma_find_first_skip};
use crate::text::{concat, copy_opt_string, trim, trim_ws};

verus! {

/// The families of AI backends the app can talk to.
#[derive(Debug, Clone, Copy, PartialEq, Eq, Structural)]
pub enum AiProviderType {
    OpenAi,
    OpenRouter,
    Anthropic,
    Gemini,
    Ollama,
    Mlx,
    AppleIntelligence,
}

/// What a configured provider can be used for.
#[derive(Debug, Clone, Copy, PartialEq, Eq, Structural)]
pub enum ProviderCapability {
    Text,
    Image,
    Vision,
    Transcription,
}

/// Human-readable name of a provider family.
pub open spec fn display_name_of(t: AiProviderType) -> Seq<char> {
    match t {
        AiProviderType::OpenAi => "OpenAI"@,
        AiProviderType::OpenRouter => "OpenRouter"@,
        AiProviderType::Anthropic => "Anthropic"@,
        AiProviderType::Gemini => "Gemini"@,
        AiProviderType::Ollama => "Ollama"@,
        AiProviderType::Mlx => "MLX"@,
        AiProviderType::AppleIntelligence => "Apple Intelligence"@,
    }
}

/// The variant name of a provider family, as `{:?}` prints it.
pub open spec fn type_debug_of(t: AiProviderType) -> Seq<char> {
    match t {
        AiProviderType::OpenAi => "OpenAi"@,
        AiProviderType::OpenRouter => "OpenRouter"@,
        AiProviderType::Anthropic => "Anthropic"@,
        AiProviderType::Gemini => "Gemini"@,
        AiProviderType::Ollama => "Ollama"@,
        AiProviderType::Mlx => "Mlx"@,
        AiProviderType::AppleIntelligence => "AppleIntelligence"@,
    }
}

/// The variant name of a capability, as `{:?}` prints it.
pub open spec fn capability_debug_of(c: ProviderCapability) -> Seq<char> {
    match c {
        ProviderCapability::Text => "Text"@,
        ProviderCapability::Image => "Image"@,
        ProviderCapability::Vision => "Vision"@,
        ProviderCapability::Transcription => "Transcription"@,
    }
}

impl AiProviderType {
    /// Human-readable name, used as the label of a provider left unnamed.
    pub fn display_name(&self) -> (r: String)
        ensures
            r@ == display_name_of(*self),
    {
        match self {
            AiProviderType::OpenAi => "OpenAI".to_owned(),
            AiProviderType::OpenRouter => "OpenRouter".to_owned(),
            AiProviderType::Anthropic => "Anthropic".to_owned(),
            AiProviderType::Gemini => "Gemini".to_owned(),
            AiProviderType::Ollama => "Ollama".to_owned(),
            AiProviderType::Mlx => "MLX".to_owned(),
            AiProviderType::AppleIntelligence => "Apple Intelligence".to_owned(),
        }
    }

    /// The variant name, as `{:?}` prints it.
    pub fn debug_name(&self) -> (r: String)
        ensures
            r@ == type_debug_of(*self),
    {
        match self {
            AiProviderType::OpenAi => "OpenAi".to_owned(),
            AiProviderType::OpenRouter => "OpenRouter".to_owned(),
            AiProviderType::Anthropic => "Anthropic".to_owned(),
            AiProviderType::Gemini => "Gemini".to_owned(),
            AiProviderType::Ollama => "Ollama".to_owned(),
            AiProviderType::Mlx => "Mlx".to_owned(),
            AiProviderType::AppleIntelligence => "AppleIntelligence".to_owned(),
        }
    }
}

impl ProviderCapability {
    /// The variant name, as `{:?}` prints it.
    pub fn debug_name(&self) -> (r: String)
        ensures
            r@ == capability_debug_of(*self),
    {
        match self {
            ProviderCapability::Text => "Text".to_owned(),
            ProviderCapability::Image => "Image".to_owned(),
            ProviderCapability::Vision => "Vision".to_owned(),
            ProviderCapability::Transcription => "Transcription".to_owned(),
        }
    }
}

/// Whether `caps` lists `c`.
pub fn has_capability(caps: &Vec<ProviderCapability>, c: ProviderCapability) -> (r: bool)
    ensures
        r == caps@.contains(c),
{
    let mut i: usize = 0;
    while i < caps.len()
        invariant
            i <= caps.len(),
            forall|j: int| 0 <= j < i ==> caps@[j] != c,
        decreases caps.len() - i,
    {
        if caps[i] == c {
            assert(caps@[i as int] == c);
            return true;
        }
        i = i + 1;
    }
    false
}

/// A copy of a capability list.
pub fn copy_capabilities(caps: &Vec<ProviderCapability>) -> (r: Vec<ProviderCapability>)
    ensures
        r@ == caps@,
{
    let mut out: Vec<ProviderCapability> = Vec::new();
    let mut i: usize = 0;
    while i < caps.len()
        invariant
            i <= caps.len(),
            out@ == caps@.take(i as int),
        decreases caps.len() - i,
    {
        out.push(caps[i]);
        i = i + 1;
        assert(out@ == caps@.take(i as int));
    }
    assert(caps@.take(caps.len() as int) == caps@);
    out
}

/// Why a request to an AI provider did not succeed.
#[derive(Debug)]
pub enum AiProviderError {
    Network(String),
    Cancelled,
    Rejected(String),
    InvalidResponse(String),
    MissingApiKey(AiProviderType),
    NotAvailable(AiProviderType),
}

/// The text of a provider error, as its `Display` shows it.
pub open spec fn error_text(e: AiProviderError) -> Seq<char> {
    match e {
        AiProviderError::Network(m) => "network error: "@ + m@,
        AiProviderError::Cancelled => "request cancelled"@,
        AiProviderError::Rejected(m) => "request rejected: "@ + m@,
        AiProviderError::InvalidResponse(m) => "invalid response: "@ + m@,
        AiProviderError::MissingApiKey(t) => "missing API key for "@ + type_debug_of(t),
        AiProviderError::NotAvailable(t) => type_debug_of(t) + " is not available"@,
    }
}

impl AiProviderError {
    /// The error's text.
    pub fn message(&self) -> (r: String)
        ensures
            r@ == error_text(*self),
    {
        match self {
            AiProviderError::Network(m) => concat("network error: ", m.as_str()),
            AiProviderError::Cancelled => "request cancelled".to_owned(),
            AiProviderError::Rejected(m) => concat("request rejected: ", m.as_str()),
            AiProviderError::InvalidResponse(m) => concat("invalid response: ", m.as_str()),
            AiProviderError::MissingApiKey(t) => {
                let d = t.debug_name();
                concat("missing API key for ", d.as_str())
            },
            AiProviderError::NotAvailable(t) => {
                let d = t.debug_name();
                concat(d.as_str(), " is not available")
            },
        }
    }
}

/// One timed piece of a transcript.
#[derive(Debug)]
pub struct TranscriptionSegment {
    pub start_ms: i64,
    pub end_ms: i64,
    pub text: String,
    pub language: Option<String>,
}

impl TranscriptionSegment {
    /// A segment with the given times and text, and no language tag.
    pub fn new(start_ms: i64, end_ms: i64, text: &str) -> (r: Self)
        ensures
            r.start_ms == start_ms,
            r.end_ms == end_ms,
            r.text@ == text@,
            r.language is None,
    {
        TranscriptionSegment { start_ms, end_ms, text: text.to_owned(), language: None }
    }

    /// A field-by-field copy.
    pub fn duplicate(&self) -> (r: Self)
        ensures
            r == *self,
    {
        TranscriptionSegment {
            start_ms: self.start_ms,
            end_ms: self.end_ms,
            text: self.text.clone(),
            language: copy_opt_string(&self.language),
        }
    }
}

/// A copy of a list of segments.
pub fn copy_segments(v: &Vec<TranscriptionSegment>) -> (r: Vec<TranscriptionSegment>)
    ensures
        r@ == v@,
{
    let mut out: Vec<TranscriptionSegment> = Vec::new();
    let mut i: usize = 0;
    while i < v.len()
        invariant
            i <= v.len(),
            out@ == v@.take(i as int),
        decreases v.len() - i,
    {
        out.push(v[i].duplicate());
        i = i + 1;
        assert(out@ == v@.take(i as int));
    }
    assert(v@.take(v.len() as int) == v@);
    out
}

/// The segment built from one entry of a cloud transcription response: the
/// times in milliseconds, the text trimmed and the response's language tag.
pub fn segment_from_response(
    start_ms: i64,
    end_ms: i64,
    text: &str,
    language: &Option<String>,
) -> (r: TranscriptionSegment)
    ensures
        r.start_ms == start_ms,
        r.end_ms == end_ms,
        r.text@ == trim_ws(text@),
        r.language == *language,
{
    let t = trim(text);
    let mut seg = TranscriptionSegment::new(start_ms, end_ms, t.as_str());
    seg.language = copy_opt_string(language);
    seg
}

/// The language of the first segment that carries one, as text.
pub open spec fn segments_language(segs: Seq<TranscriptionSegment>) -> Option<Seq<char>> {
    match find_first(segs, |s: TranscriptionSegment| s.language is Some) {
        Some(s) => match s.language {
            Some(l) => Some(l@),
            None => None,
        },
        None => None,
    }
}

/// The language of the first segment that carries one.
pub fn first_language(v: &Vec<TranscriptionSegment>) -> (r: Option<String>)
    ensures
        match r {
            Some(l) => segments_language(v@) == Some(l@),
            None => segments_language(v@) is None,
        },
{
    let ghost p = |s: TranscriptionSegment| s.language is Some;
    let mut i: usize = 0;
    assert(v@.skip(0) == v@);
    while i < v.len()
        invariant
            i <= v.len(),
            p == (|s: TranscriptionSegment| s.language is Some),
            find_first(v@, p) == find_first(v@.skip(i as int), p),
        decreases v.len() - i,
    {
        if v[i].language.is_some() {
            proof {
                lemma_find_first_hit(v@, p, i as int);
            }
            let r = copy_opt_string(&v[i].language);
            return r;
        }
        proof {
            lemma_find_first_skip(v@, p, i as int);
        }
        i = i + 1;
    }
    proof {
        lemma_find_first_end(v@, p);
    }
    None
}

} // verus!
