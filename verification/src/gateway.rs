//! The AI gateway: which configured providers a request may go to, in what
//! order, with which model, and what happens after each outcome.
//!
//! The network calls, timers and sleeps belong to the caller; this module
//! decides. A [`FallbackRun`] is driven as follows: resolve the provider that
//! [`FallbackRun::current_provider`] names, report [`FallbackRun::on_resolve_failed`]
//! or [`FallbackRun::on_resolved`]; call it with the model that the latter
//! returns and report [`FallbackRun::on_success`] or [`FallbackRun::on_failure`],
//! which says whether to wait and retry the same provider; when no provider
//! is left, [`FallbackRun::exhausted_error`] is the answer.

use vstd::prelude::*;
use std::collections::HashMap;
use crate::config::{ConfigModel, ProviderConfig, models, opt_chars, sort_configs};
use crate::model::{AiProviderError, AiProviderType, ProviderCapability, capability_debug_of,
    error_text};
use crate::sorting::stable_sort_by;
use crate::text::{blank, chars_of, concat, contains, contains_chars, copy_opt_string, is_blank,
    join, join_strings, lower, str_eq, strings_view, to_lower_chars};

verus! {

#[verifier::external_type_specification]
#[verifier::external_body]
pub struct ExJsonValue(serde_json::Value);

/// What a tool asks of the gateway.
#[derive(Debug)]
pub struct AIRequestContext {
    pub tool_name: String,
    pub capability: ProviderCapability,
    pub preferred_provider_id: Option<String>,
    pub preferred_provider: Option<AiProviderType>,
    pub preferred_model: Option<String>,
    pub timeout_ms: Option<u64>,
    pub metadata: HashMap<String, String>,
    pub max_attempts_per_provider: u32,
    pub retry_backoff_ms: u64,
}

/// Each provider is tried twice unless the context says otherwise.
pub fn default_attempts_per_provider() -> (r: u32)
    ensures
        r == 2,
{
    2
}

/// Retries wait 1200 ms (times the attempt number) unless the context says otherwise.
pub fn default_retry_backoff_ms() -> (r: u64)
    ensures
        r == 1200,
{
    1200
}

/// The record of one try of one provider.
#[derive(Debug)]
pub struct GatewayAttempt {
    pub provider_id: String,
    pub provider_label: String,
    pub provider_type: AiProviderType,
    pub model: String,
    pub duration_ms: u128,
    pub success: bool,
    pub error: Option<String>,
    pub retryable: bool,
}

/// The contents of a [`GatewayAttempt`].
pub struct AttemptModel {
    pub provider_id: Seq<char>,
    pub provider_label: Seq<char>,
    pub provider_type: AiProviderType,
    pub model: Seq<char>,
    pub duration_ms: u128,
    pub success: bool,
    pub error: Option<Seq<char>>,
    pub retryable: bool,
}

impl View for GatewayAttempt {
    type V = AttemptModel;

    open spec fn view(&self) -> AttemptModel {
        AttemptModel {
            provider_id: self.provider_id@,
            provider_label: self.provider_label@,
            provider_type: self.provider_type,
            model: self.model@,
            duration_ms: self.duration_ms,
            success: self.success,
            error: opt_chars(self.error),
            retryable: self.retryable,
        }
    }
}

/// The contents of a list of attempts.
pub open spec fn attempt_models(s: Seq<GatewayAttempt>) -> Seq<AttemptModel> {
    s.map_values(|a: GatewayAttempt| a@)
}

/// A successful gateway call: the answer, who gave it, and every attempt made.
#[derive(Debug)]
pub struct GatewayCompletion {
    pub value: serde_json::Value,
    pub provider_id: String,
    pub provider_label: String,
    pub provider_type: AiProviderType,
    pub model: String,
    pub attempts: Vec<GatewayAttempt>,
}

// ───────────────────────────── error classification ─────────────────────────────

/// The lower-cased message of a rejection names a passing condition.
pub open spec fn transient_rejection(message: Seq<char>) -> bool {
    let l = lower(message);
    ||| contains(l, "429"@)
    ||| contains(l, "500"@)
    ||| contains(l, "502"@)
    ||| contains(l, "503"@)
    ||| contains(l, "504"@)
    ||| contains(l, "rate limit"@)
    ||| contains(l, "quota"@)
    ||| contains(l, "temporar"@)
    ||| contains(l, "model unavailable"@)
    ||| contains(l, "overloaded"@)
}

/// Errors worth another try: network failures, cancellations, and
/// rejections whose message names a passing condition.
pub open spec fn retryable(e: AiProviderError) -> bool {
    match e {
        AiProviderError::Network(_) => true,
        AiProviderError::Cancelled => true,
        AiProviderError::Rejected(m) => transient_rejection(m@),
        _ => false,
    }
}

fn contains_lit(hay: &Vec<char>, needle: &str) -> (r: bool)
    ensures
        r == contains(hay@, needle@),
{
    let n = chars_of(needle);
    contains_chars(hay, &n)
}

/// Whether an error is worth another try (see [`retryable`]).
pub fn is_retryable(error: &AiProviderError) -> (r: bool)
    ensures
        r == retryable(*error),
{
    match error {
        AiProviderError::Network(_) => true,
        AiProviderError::Cancelled => true,
        AiProviderError::Rejected(message) => {
            let v = chars_of(message.as_str());
            let l = to_lower_chars(&v);
            contains_lit(&l, "429") || contains_lit(&l, "500") || contains_lit(&l, "502")
                || contains_lit(&l, "503") || contains_lit(&l, "504") || contains_lit(
                &l,
                "rate limit",
            ) || contains_lit(&l, "quota") || contains_lit(&l, "temporar") || contains_lit(
                &l,
                "model unavailable",
            ) || contains_lit(&l, "overloaded")
        },
        _ => false,
    }
}

// ───────────────────────────── candidates and models ─────────────────────────────

/// The order key of a candidate: first the preferred provider id, then the
/// preferred provider type, then priority.
pub open spec fn candidate_key(
    c: ConfigModel,
    preferred_id: Option<Seq<char>>,
    preferred_type: Option<AiProviderType>,
) -> u64 {
    let id_miss: u64 = match preferred_id {
        Some(id) => if c.id != id {
            1
        } else {
            0
        },
        None => 0,
    };
    let type_miss: u64 = match preferred_type {
        Some(t) => if c.provider_type != t {
            1
        } else {
            0
        },
        None => 0,
    };
    (id_miss * 0x2_0000_0000 + type_miss * 0x1_0000_0000 + c.priority) as u64
}

/// A config that may serve the request: enabled and able to do the job.
pub open spec fn eligible(c: ConfigModel, capability: ProviderCapability) -> bool {
    c.enabled && c.capabilities.contains(capability)
}

/// The providers a request goes to, in the order they are tried.
pub open spec fn candidate_order(
    configs: Seq<ConfigModel>,
    capability: ProviderCapability,
    preferred_id: Option<Seq<char>>,
    preferred_type: Option<AiProviderType>,
) -> Seq<ConfigModel> {
    stable_sort_by(
        configs.filter(|c: ConfigModel| eligible(c, capability)),
        |c: ConfigModel| candidate_key(c, preferred_id, preferred_type),
    )
}

/// The model to request from a provider: the context's preferred model when
/// it is not blank, else the request's model when it is not blank, else the
/// provider's default model.
pub open spec fn chosen_model(
    preferred_model: Option<Seq<char>>,
    request_model: Seq<char>,
    default_model: Seq<char>,
) -> Seq<char> {
    match preferred_model {
        Some(m) if !is_blank(m) => m,
        _ => if !is_blank(request_model) {
            request_model
        } else {
            default_model
        },
    }
}

/// The model to request from `config` (see [`chosen_model`]).
pub fn pick_model(context: &AIRequestContext, request_model: &str, config: &ProviderConfig) -> (r:
    String)
    ensures
        r@ == chosen_model(opt_chars(context.preferred_model), request_model@, config@.default_model),
{
    model_for(&context.preferred_model, request_model, config)
}

fn candidate_key_exec(
    c: &ProviderConfig,
    preferred_id: &Option<String>,
    preferred_type: Option<AiProviderType>,
) -> (r: u64)
    ensures
        r == candidate_key(c@, opt_chars(*preferred_id), preferred_type),
{
    let id_miss: u64 = match preferred_id {
        Some(id) => if !str_eq(c.id.as_str(), id.as_str()) {
            1
        } else {
            0
        },
        None => 0,
    };
    let type_miss: u64 = match preferred_type {
        Some(t) => if c.provider_type != t {
            1
        } else {
            0
        },
        None => 0,
    };
    id_miss * 0x2_0000_0000 + type_miss * 0x1_0000_0000 + c.priority as u64
}

/// The providers that may serve `context`, in the order they are tried.
pub fn candidates_for(configs: &Vec<ProviderConfig>, context: &AIRequestContext) -> (r: Vec<
    ProviderConfig,
>)
    ensures
        models(r@) == candidate_order(
            models(configs@),
            context.capability,
            opt_chars(context.preferred_provider_id),
            context.preferred_provider,
        ),
{
    let ghost cap = context.capability;
    let ghost pred = |c: ConfigModel| eligible(c, cap);
    let mut kept: Vec<ProviderConfig> = Vec::new();
    let mut keys: Vec<u64> = Vec::new();
    let ghost key = |c: ConfigModel|
        candidate_key(c, opt_chars(context.preferred_provider_id), context.preferred_provider);
    let mut i: usize = 0;
    while i < configs.len()
        invariant
            i <= configs.len(),
            kept.len() == keys.len(),
            models(kept@) == models(configs@).take(i as int).filter(pred),
            forall|j: int| 0 <= j < kept.len() ==> keys@[j] == key(#[trigger] kept@[j]@),
            pred == (|c: ConfigModel| eligible(c, cap)),
            cap == context.capability,
            key == (|c: ConfigModel|
                candidate_key(c, opt_chars(context.preferred_provider_id), context.preferred_provider)),
        decreases configs.len() - i,
    {
        let c = &configs[i];
        let ghost prefix = models(configs@).take(i as int);
        assert(models(configs@).take(i + 1) == prefix.push(c@));
        reveal(Seq::filter);
        assert(prefix.push(c@).drop_last() == prefix);
        if c.enabled && c.supports(context.capability) {
            let k = candidate_key_exec(c, &context.preferred_provider_id, context.preferred_provider);
            let ghost prev = kept@;
            kept.push(c.duplicate());
            keys.push(k);
            assert(models(kept@) =~= models(prev).push(c@));
        }
        i = i + 1;
    }
    assert(models(configs@).take(configs.len() as int) == models(configs@));
    let r = sort_configs(kept, &keys, Ghost(key));
    r
}


// ───────────────────────────── the fallback run ─────────────────────────────

/// The message when no provider may serve a request.
pub open spec fn no_candidates_text(capability: ProviderCapability, tool: Seq<char>) -> Seq<char> {
    "no enabled providers support "@ + capability_debug_of(capability) + " for "@ + tool
}

/// The message when every provider failed.
pub open spec fn all_failed_text(tool: Seq<char>, failures: Seq<Seq<char>>) -> Seq<char> {
    "all providers failed for "@ + tool + ": "@ + join(failures, " | "@)
}

/// How a failure is summed up in the final error: `<label>: <error>`.
pub open spec fn failure_line(label: Seq<char>, e: AiProviderError) -> Seq<char> {
    label + ": "@ + error_text(e)
}

/// The record of a failed try.
pub open spec fn failed_attempt(c: ConfigModel, model: Seq<char>, duration_ms: u128, e: AiProviderError) -> AttemptModel {
    AttemptModel {
        provider_id: c.id,
        provider_label: c.label,
        provider_type: c.provider_type,
        model,
        duration_ms,
        success: false,
        error: Some(error_text(e)),
        retryable: retryable(e),
    }
}

/// The record of a successful try.
pub open spec fn succeeded_attempt(c: ConfigModel, model: Seq<char>, duration_ms: u128) -> AttemptModel {
    AttemptModel {
        provider_id: c.id,
        provider_label: c.label,
        provider_type: c.provider_type,
        model,
        duration_ms,
        success: true,
        error: None,
        retryable: false,
    }
}

/// A request's passage through its candidate providers.
pub struct FallbackRun {
    candidates: Vec<ProviderConfig>,
    tool_name: String,
    preferred_model: Option<String>,
    request_model: String,
    max_attempts: u32,
    backoff_ms: u64,
    current: usize,
    attempt_index: u32,
    resolved: bool,
    model: String,
    attempts: Vec<GatewayAttempt>,
    failures: Vec<String>,
}

impl FallbackRun {
    #[verifier::type_invariant]
    spec fn well_formed(&self) -> bool {
        &&& self.current <= self.candidates.len()
        &&& 1 <= self.max_attempts
        &&& 1 <= self.backoff_ms
        &&& self.attempt_index < self.max_attempts
        &&& (self.resolved ==> self.current < self.candidates.len())
    }

    /// The providers, in the order they are tried.
    pub closed spec fn candidates(&self) -> Seq<ConfigModel> {
        models(self.candidates@)
    }

    /// The position of the provider being worked on.
    pub closed spec fn current(&self) -> int {
        self.current as int
    }

    /// How many tries of the current provider have failed.
    pub closed spec fn attempt_index(&self) -> int {
        self.attempt_index as int
    }

    /// Whether the current provider has been resolved into a client.
    pub closed spec fn resolved(&self) -> bool {
        self.resolved
    }

    /// The model requested from the current provider.
    pub closed spec fn model(&self) -> Seq<char> {
        self.model@
    }

    /// Every try so far.
    pub closed spec fn attempts(&self) -> Seq<AttemptModel> {
        attempt_models(self.attempts@)
    }

    /// One line per failure so far.
    pub closed spec fn failures(&self) -> Seq<Seq<char>> {
        strings_view(self.failures@)
    }

    /// The requesting tool.
    pub closed spec fn tool(&self) -> Seq<char> {
        self.tool_name@
    }

    /// The context's preferred model.
    pub closed spec fn preferred_model(&self) -> Option<Seq<char>> {
        opt_chars(self.preferred_model)
    }

    /// The request's own model.
    pub closed spec fn request_model(&self) -> Seq<char> {
        self.request_model@
    }

    /// Tries per provider (at least one).
    pub closed spec fn max_attempts(&self) -> int {
        self.max_attempts as int
    }

    /// The base wait between tries (at least one millisecond).
    pub closed spec fn backoff_ms(&self) -> int {
        self.backoff_ms as int
    }

    /// Starts a run over the providers that may serve `context`; fails when
    /// there is none.
    pub fn start(configs: &Vec<ProviderConfig>, context: &AIRequestContext, request_model: &str) -> (r: Result<
        FallbackRun,
        AiProviderError,
    >)
        ensures
            ({
                let order = candidate_order(
                    models(configs@),
                    context.capability,
                    opt_chars(context.preferred_provider_id),
                    context.preferred_provider,
                );
                match r {
                    Err(e) => order.len() == 0 && (e matches AiProviderError::Rejected(m) && m@
                        == no_candidates_text(context.capability, context.tool_name@)),
                    Ok(run) => {
                        &&& order.len() > 0
                        &&& run.candidates() == order
                        &&& run.current() == 0
                        &&& run.attempt_index() == 0
                        &&& !run.resolved()
                        &&& run.attempts().len() == 0
                        &&& run.failures().len() == 0
                        &&& run.tool() == context.tool_name@
                        &&& run.preferred_model() == opt_chars(context.preferred_model)
                        &&& run.request_model() == request_model@
                        &&& run.max_attempts() == (if context.max_attempts_per_provider < 1 {
                            1
                        } else {
                            context.max_attempts_per_provider as int
                        })
                        &&& run.backoff_ms() == (if context.retry_backoff_ms < 1 {
                            1
                        } else {
                            context.retry_backoff_ms as int
                        })
                    },
                }
            }),
    {
        let candidates = candidates_for(configs, context);
        if candidates.len() == 0 {
            let cap = context.capability.debug_name();
            let a = concat("no enabled providers support ", cap.as_str());
            let b = concat(a.as_str(), " for ");
            let m = concat(b.as_str(), context.tool_name.as_str());
            return Err(AiProviderError::Rejected(m));
        }
        let max_attempts = if context.max_attempts_per_provider < 1 {
            1
        } else {
            context.max_attempts_per_provider
        };
        let backoff_ms = if context.retry_backoff_ms < 1 {
            1
        } else {
            context.retry_backoff_ms
        };
        let run = FallbackRun {
            candidates,
            tool_name: context.tool_name.clone(),
            preferred_model: copy_opt_string(&context.preferred_model),
            request_model: request_model.to_owned(),
            max_attempts,
            backoff_ms,
            current: 0,
            attempt_index: 0,
            resolved: false,
            model: String::new(),
            attempts: Vec::new(),
            failures: Vec::new(),
        };
        assert(attempt_models(run.attempts@) =~= Seq::<AttemptModel>::empty());
        assert(strings_view(run.failures@) =~= Seq::<Seq<char>>::empty());
        Ok(run)
    }

    /// The provider to resolve or call now; none once every provider failed.
    pub fn current_provider(&self) -> (r: Option<ProviderConfig>)
        ensures
            r is Some <==> self.current() < self.candidates().len(),
            r matches Some(c) ==> c@ == self.candidates()[self.current()],
    {
        proof {
            use_type_invariant(self);
        }
        if self.current < self.candidates.len() {
            Some(self.candidates[self.current].duplicate())
        } else {
            None
        }
    }

    proof fn lemma_push_attempt(prev: Seq<GatewayAttempt>, a: GatewayAttempt)
        ensures
            attempt_models(prev.push(a)) == attempt_models(prev).push(a@),
    {
        assert(attempt_models(prev.push(a)) =~= attempt_models(prev).push(a@));
    }

    proof fn lemma_push_failure(prev: Seq<String>, f: String)
        ensures
            strings_view(prev.push(f)) == strings_view(prev).push(f@),
    {
        assert(strings_view(prev.push(f)) =~= strings_view(prev).push(f@));
    }

    /// The current provider could not be turned into a client: the failure is
    /// recorded (no time spent, the model it would have used) and the run
    /// moves on to the next provider.
    pub fn on_resolve_failed(&mut self, err: AiProviderError)
        requires
            old(self).current() < old(self).candidates().len(),
        ensures
            ({
                let c = old(self).candidates()[old(self).current()];
                let model = chosen_model(old(self).preferred_model(), old(self).request_model(), c.default_model);
                &&& final(self).attempts() == old(self).attempts().push(failed_attempt(c, model, 0, err))
                &&& final(self).failures() == old(self).failures().push(failure_line(c.label, err))
            }),
            final(self).current() == old(self).current() + 1,
            final(self).attempt_index() == 0,
            !final(self).resolved(),
            final(self).candidates() == old(self).candidates(),
            final(self).tool() == old(self).tool(),
            final(self).preferred_model() == old(self).preferred_model(),
            final(self).request_model() == old(self).request_model(),
            final(self).max_attempts() == old(self).max_attempts(),
            final(self).backoff_ms() == old(self).backoff_ms(),
    {
        proof {
            use_type_invariant(&*self);
        }
        let cfg = &self.candidates[self.current];
        let text = err.message();
        let a = concat(cfg.label.as_str(), ": ");
        let line = concat(a.as_str(), text.as_str());
        let model = {
            let preferred = &self.preferred_model;
            let request_model = self.request_model.as_str();
            model_for(preferred, request_model, cfg)
        };
        let attempt = GatewayAttempt {
            provider_id: cfg.id.clone(),
            provider_label: cfg.label.clone(),
            provider_type: cfg.provider_type,
            model,
            duration_ms: 0,
            success: false,
            error: Some(text),
            retryable: is_retryable(&err),
        };
        proof {
            Self::lemma_push_attempt(self.attempts@, attempt);
            Self::lemma_push_failure(self.failures@, line);
        }
        let mut attempts: Vec<GatewayAttempt> = Vec::new();
        std::mem::swap(&mut attempts, &mut self.attempts);
        attempts.push(attempt);
        self.attempts = attempts;
        let mut failures: Vec<String> = Vec::new();
        std::mem::swap(&mut failures, &mut self.failures);
        failures.push(line);
        self.failures = failures;
        self.resolved = false;
        self.attempt_index = 0;
        self.current = self.current + 1;
    }

    /// The current provider is ready: returns the model to request from it.
    pub fn on_resolved(&mut self) -> (r: String)
        requires
            old(self).current() < old(self).candidates().len(),
        ensures
            r@ == chosen_model(
                old(self).preferred_model(),
                old(self).request_model(),
                old(self).candidates()[old(self).current()].default_model,
            ),
            final(self).model() == r@,
            final(self).resolved(),
            final(self).current() == old(self).current(),
            final(self).attempt_index() == old(self).attempt_index(),
            final(self).attempts() == old(self).attempts(),
            final(self).failures() == old(self).failures(),
            final(self).candidates() == old(self).candidates(),
            final(self).tool() == old(self).tool(),
            final(self).preferred_model() == old(self).preferred_model(),
            final(self).request_model() == old(self).request_model(),
            final(self).max_attempts() == old(self).max_attempts(),
            final(self).backoff_ms() == old(self).backoff_ms(),
    {
        proof {
            use_type_invariant(&*self);
        }
        let model = model_for(&self.preferred_model, self.request_model.as_str(), &self.candidates[self.current]);
        self.model = model.clone();
        self.resolved = true;
        model
    }

    /// A call to the current provider failed after `duration_ms`. The failure
    /// is recorded; when the error is worth another try and tries are left,
    /// the answer is how long to wait before trying the same provider again
    /// (the base wait times the number of tries so far), which must fit in a
    /// `u64`; otherwise the run moves on to the next provider and the answer
    /// is none.
    pub fn on_failure(&mut self, err: AiProviderError, duration_ms: u128) -> (r: Option<u64>)
        requires
            old(self).resolved(),
            retryable(err) && old(self).attempt_index() + 1 < old(self).max_attempts() ==> old(
                self,
            ).backoff_ms() * (old(self).attempt_index() + 1) <= u64::MAX,
        ensures
            ({
                let c = old(self).candidates()[old(self).current()];
                &&& final(self).attempts() == old(self).attempts().push(
                    failed_attempt(c, old(self).model(), duration_ms, err),
                )
                &&& final(self).failures() == old(self).failures().push(failure_line(c.label, err))
            }),
            retryable(err) && old(self).attempt_index() + 1 < old(self).max_attempts() ==> {
                &&& r == Some((old(self).backoff_ms() * (old(self).attempt_index() + 1)) as u64)
                &&& final(self).current() == old(self).current()
                &&& final(self).attempt_index() == old(self).attempt_index() + 1
                &&& final(self).resolved()
                &&& final(self).model() == old(self).model()
            },
            !(retryable(err) && old(self).attempt_index() + 1 < old(self).max_attempts()) ==> {
                &&& r is None
                &&& final(self).current() == old(self).current() + 1
                &&& final(self).attempt_index() == 0
                &&& !final(self).resolved()
            },
            final(self).candidates() == old(self).candidates(),
            final(self).tool() == old(self).tool(),
            final(self).preferred_model() == old(self).preferred_model(),
            final(self).request_model() == old(self).request_model(),
            final(self).max_attempts() == old(self).max_attempts(),
            final(self).backoff_ms() == old(self).backoff_ms(),
    {
        proof {
            use_type_invariant(&*self);
        }
        let cfg = &self.candidates[self.current];
        let text = err.message();
        let a = concat(cfg.label.as_str(), ": ");
        let line = concat(a.as_str(), text.as_str());
        let retry = is_retryable(&err);
        let attempt = GatewayAttempt {
            provider_id: cfg.id.clone(),
            provider_label: cfg.label.clone(),
            provider_type: cfg.provider_type,
            model: self.model.clone(),
            duration_ms,
            success: false,
            error: Some(text),
            retryable: retry,
        };
        proof {
            Self::lemma_push_attempt(self.attempts@, attempt);
            Self::lemma_push_failure(self.failures@, line);
        }
        let mut attempts: Vec<GatewayAttempt> = Vec::new();
        std::mem::swap(&mut attempts, &mut self.attempts);
        attempts.push(attempt);
        self.attempts = attempts;
        let mut failures: Vec<String> = Vec::new();
        std::mem::swap(&mut failures, &mut self.failures);
        failures.push(line);
        self.failures = failures;
        if retry && self.attempt_index + 1 < self.max_attempts {
            let next = self.attempt_index + 1;
            let wait = self.backoff_ms * (next as u64);
            self.attempt_index = next;
            Some(wait)
        } else {
            self.resolved = false;
            self.attempt_index = 0;
            self.current = self.current + 1;
            None
        }
    }

    /// A call to the current provider succeeded after `duration_ms`: the
    /// completion names that provider and the model, and lists every try.
    pub fn on_success(self, value: serde_json::Value, duration_ms: u128) -> (r: GatewayCompletion)
        requires
            self.resolved(),
        ensures
            ({
                let c = self.candidates()[self.current()];
                &&& r.value == value
                &&& r.provider_id@ == c.id
                &&& r.provider_label@ == c.label
                &&& r.provider_type == c.provider_type
                &&& r.model@ == self.model()
                &&& attempt_models(r.attempts@) == self.attempts().push(
                    succeeded_attempt(c, self.model(), duration_ms),
                )
            }),
    {
        proof {
            use_type_invariant(&self);
        }
        let cfg = &self.candidates[self.current];
        let attempt = GatewayAttempt {
            provider_id: cfg.id.clone(),
            provider_label: cfg.label.clone(),
            provider_type: cfg.provider_type,
            model: self.model.clone(),
            duration_ms,
            success: true,
            error: None,
            retryable: false,
        };
        let provider_id = cfg.id.clone();
        let provider_label = cfg.label.clone();
        let provider_type = cfg.provider_type;
        let model = self.model.clone();
        let mut attempts = self.attempts;
        proof {
            Self::lemma_push_attempt(attempts@, attempt);
        }
        attempts.push(attempt);
        GatewayCompletion { value, provider_id, provider_label, provider_type, model, attempts }
    }

    /// The answer once every provider failed: a rejection listing each failure.
    pub fn exhausted_error(&self) -> (r: AiProviderError)
        requires
            self.current() >= self.candidates().len(),
        ensures
            r matches AiProviderError::Rejected(m) && m@ == all_failed_text(self.tool(), self.failures()),
    {
        let joined = join_strings(&self.failures, " | ");
        let a = concat("all providers failed for ", self.tool_name.as_str());
        let b = concat(a.as_str(), ": ");
        AiProviderError::Rejected(concat(b.as_str(), joined.as_str()))
    }
}

fn model_for(preferred: &Option<String>, request_model: &str, config: &ProviderConfig) -> (r: String)
    ensures
        r@ == chosen_model(opt_chars(*preferred), request_model@, config@.default_model),
{
    match preferred {
        Some(m) => {
            if !blank(m.as_str()) {
                return m.clone();
            }
        },
        None => {},
    }
    if !blank(request_model) {
        request_model.to_owned()
    } else {
        config.default_model.clone()
    }
}

} // verus!
