//! The cloud (OpenAI-compatible) Whisper transcriber: endpoint resolution
//! and the decisions taken on the provider's HTTP answers.

use vstd::prelude::*;
use crate::text::{chars_of, concat, contains, contains_chars, ends_with, ends_with_chars, lower,
    string_of, to_lower_chars, trim_chars, trim_end_char, trim_end_char_chars, trim_end_seq,
    trim_end_seq_chars, trim_ws};

verus! {

/// OpenAI caps uploads at 25 MB.
pub const MAX_UPLOAD_BYTES: usize = 26214400;

/// The base URL used when none is configured.
pub open spec fn default_whisper_base() -> Seq<char> {
    "https://api.openai.com"@
}

/// The base URL of the audio API for a configured URL: surrounding
/// whitespace and trailing slashes dropped, a known endpoint path stripped,
/// and `/v1` appended unless the URL already ends with it.
pub open spec fn normalized_audio_base(raw: Seq<char>) -> Seq<char> {
    let t = trim_end_char(trim_ws(raw), '/');
    if ends_with(t, "/audio/transcriptions"@) {
        trim_end_char(trim_end_seq(t, "/audio/transcriptions"@), '/')
    } else if ends_with(t, "/chat/completions"@) {
        trim_end_char(trim_end_seq(t, "/chat/completions"@), '/')
    } else if ends_with(t, "/models"@) {
        trim_end_char(trim_end_seq(t, "/models"@), '/')
    } else if ends_with(t, "/completions"@) {
        trim_end_char(trim_end_seq(t, "/completions"@), '/')
    } else if ends_with(t, "/v1"@) {
        t
    } else {
        t + "/v1"@
    }
}

/// A response body that is an HTML "not found" page rather than an API error.
pub open spec fn html_not_found(body: Seq<char>) -> bool {
    let l = lower(body);
    ||| contains(l, "<!doctype html"@)
    ||| contains(l, "<html"@)
    ||| contains(l, "this page could not be found"@)
    ||| contains(l, "<title>404"@)
}

/// The message given when a provider has no audio transcription endpoint.
pub open spec fn unsupported_endpoint_text() -> Seq<char> {
    "Selected provider does not expose an OpenAI-compatible audio transcription endpoint. Use OpenAI for cloud transcription, or keep this provider for text-only tasks."@
}

/// A 404 answered with an HTML page: the provider has no audio endpoint.
pub open spec fn unsupported_endpoint(status: u16, body: Seq<char>) -> bool {
    status == 404 && html_not_found(body)
}

/// A 2xx status.
pub open spec fn is_success_status(status: u16) -> bool {
    200 <= status <= 299
}

/// What a probe of the audio endpoint concludes from the provider's answer:
/// `status_text` is the status as HTTP libraries print it (`"401 Unauthorized"`).
pub open spec fn probe_outcome(status: u16, status_text: Seq<char>, body: Seq<char>) -> Result<(), Seq<char>> {
    if is_success_status(status) {
        Ok(())
    } else if unsupported_endpoint(status, body) {
        Err(unsupported_endpoint_text())
    } else if status == 401 || status == 403 {
        Err("Audio transcription probe failed "@ + status_text
            + ": invalid API key or permission denied"@)
    } else if status == 429 || (500 <= status <= 599) {
        Err("Audio transcription probe failed "@ + status_text
            + ": provider temporarily unavailable"@)
    } else {
        Ok(())
    }
}

/// What a transcription request concludes from a non-success answer's status.
pub open spec fn transcribe_outcome(status: u16, status_text: Seq<char>, body: Seq<char>) -> Result<(), Seq<char>> {
    if is_success_status(status) {
        Ok(())
    } else if unsupported_endpoint(status, body) {
        Err(unsupported_endpoint_text())
    } else {
        Err("OpenAI Whisper error "@ + status_text + ": "@ + body)
    }
}

/// Client settings for an OpenAI-compatible `/audio/transcriptions` endpoint.
#[derive(Debug)]
pub struct OpenAiWhisperTranscriber {
    pub api_key: String,
    pub base_url: String,
}

impl OpenAiWhisperTranscriber {
    /// A transcriber for the given API key, pointed at OpenAI.
    pub fn new(api_key: String) -> (r: Self)
        ensures
            r.api_key@ == api_key@,
            r.base_url@ == default_whisper_base(),
    {
        OpenAiWhisperTranscriber { api_key, base_url: "https://api.openai.com".to_owned() }
    }

    /// The same transcriber pointed at another base URL.
    pub fn with_base_url(self, base_url: String) -> (r: Self)
        ensures
            r.api_key == self.api_key,
            r.base_url@ == base_url@,
    {
        let mut s = self;
        s.base_url = base_url;
        s
    }

    /// The base URL of the audio API.
    pub fn normalized_base_url(&self) -> (r: String)
        ensures
            r@ == normalized_audio_base(self.base_url@),
    {
        normalize_openai_audio_base_url(self.base_url.as_str())
    }

    /// The full URL of the transcription endpoint.
    pub fn transcriptions_url(&self) -> (r: String)
        ensures
            r@ == normalized_audio_base(self.base_url@) + "/audio/transcriptions"@,
    {
        let base = self.normalized_base_url();
        concat(base.as_str(), "/audio/transcriptions")
    }
}

fn strip_endpoint(t: &Vec<char>, suffix: &str) -> (r: String)
    ensures
        r@ == trim_end_char(trim_end_seq(t@, suffix@), '/'),
{
    let s = chars_of(suffix);
    let a = trim_end_seq_chars(t, &s);
    let b = trim_end_char_chars(&a, '/');
    string_of(&b)
}

/// The audio API base for a configured URL (see [`normalized_audio_base`]).
pub fn normalize_openai_audio_base_url(raw: &str) -> (r: String)
    ensures
        r@ == normalized_audio_base(raw@),
{
    let v = chars_of(raw);
    let trimmed = trim_chars(&v);
    let t = trim_end_char_chars(&trimmed, '/');
    let audio = chars_of("/audio/transcriptions");
    if ends_with_chars(&t, &audio) {
        return strip_endpoint(&t, "/audio/transcriptions");
    }
    let chat = chars_of("/chat/completions");
    if ends_with_chars(&t, &chat) {
        return strip_endpoint(&t, "/chat/completions");
    }
    let models = chars_of("/models");
    if ends_with_chars(&t, &models) {
        return strip_endpoint(&t, "/models");
    }
    let completions = chars_of("/completions");
    if ends_with_chars(&t, &completions) {
        return strip_endpoint(&t, "/completions");
    }
    let v1 = chars_of("/v1");
    if ends_with_chars(&t, &v1) {
        return string_of(&t);
    }
    let ts = string_of(&t);
    concat(ts.as_str(), "/v1")
}

/// Whether a response body looks like an HTML "not found" page.
pub fn looks_like_html_not_found(body: &str) -> (r: bool)
    ensures
        r == html_not_found(body@),
{
    let v = chars_of(body);
    let l = to_lower_chars(&v);
    contains_chars(&l, &chars_of("<!doctype html")) || contains_chars(&l, &chars_of("<html"))
        || contains_chars(&l, &chars_of("this page could not be found")) || contains_chars(
        &l,
        &chars_of("<title>404"),
    )
}

/// The message given when a provider has no audio transcription endpoint.
pub fn unsupported_audio_endpoint_message() -> (r: String)
    ensures
        r@ == unsupported_endpoint_text(),
{
    "Selected provider does not expose an OpenAI-compatible audio transcription endpoint. Use OpenAI for cloud transcription, or keep this provider for text-only tasks.".to_owned()
}

/// Whether an answer shows that the provider has no audio endpoint: a 404
/// with an HTML page.
pub fn is_unsupported_audio_endpoint(status: u16, body: &str) -> (r: bool)
    ensures
        r == unsupported_endpoint(status, body@),
{
    status == 404 && looks_like_html_not_found(body)
}

/// The outcome of probing the audio endpoint, from the provider's answer.
pub fn probe_verdict(status: u16, status_text: &str, body: &str) -> (r: Result<(), String>)
    ensures
        match (r, probe_outcome(status, status_text@, body@)) {
            (Ok(()), Ok(())) => true,
            (Err(m), Err(e)) => m@ == e,
            _ => false,
        },
{
    if 200 <= status && status <= 299 {
        return Ok(());
    }
    if is_unsupported_audio_endpoint(status, body) {
        return Err(unsupported_audio_endpoint_message());
    }
    if status == 401 || status == 403 {
        let a = concat("Audio transcription probe failed ", status_text);
        return Err(concat(a.as_str(), ": invalid API key or permission denied"));
    }
    if status == 429 || (500 <= status && status <= 599) {
        let a = concat("Audio transcription probe failed ", status_text);
        return Err(concat(a.as_str(), ": provider temporarily unavailable"));
    }
    Ok(())
}

/// The outcome of a transcription request, from the provider's answer status.
pub fn transcribe_verdict(status: u16, status_text: &str, body: &str) -> (r: Result<(), String>)
    ensures
        match (r, transcribe_outcome(status, status_text@, body@)) {
            (Ok(()), Ok(())) => true,
            (Err(m), Err(e)) => m@ == e,
            _ => false,
        },
{
    if 200 <= status && status <= 299 {
        return Ok(());
    }
    if is_unsupported_audio_endpoint(status, body) {
        return Err(unsupported_audio_endpoint_message());
    }
    let a = concat("OpenAI Whisper error ", status_text);
    let b = concat(a.as_str(), ": ");
    Err(concat(b.as_str(), body))
}

/// Whether an audio file of `len` bytes is too large to upload.
pub fn exceeds_upload_limit(len: usize) -> (r: bool)
    ensures
        r == (len > 26214400),
{
    len > MAX_UPLOAD_BYTES
}

/// The model to request: the given one, else `whisper-1`.
pub fn whisper_model(model: Option<&str>) -> (r: String)
    ensures
        r@ == (match model {
            Some(m) => m@,
            None => "whisper-1"@,
        }),
{
    match model {
        Some(m) => m.to_owned(),
        None => "whisper-1".to_owned(),
    }
}

/// The upload's file name: the audio file's own name, else `audio.mp3`.
pub fn upload_file_name(file_name: Option<&str>) -> (r: String)
    ensures
        r@ == (match file_name {
            Some(m) => m@,
            None => "audio.mp3"@,
        }),
{
    match file_name {
        Some(m) => m.to_owned(),
        None => "audio.mp3".to_owned(),
    }
}

} // verus!
