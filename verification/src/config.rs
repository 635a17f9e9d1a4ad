//! Provider configuration: which AI backends exist, in what order they are
//! tried and where their API keys are kept.

use vstd::prelude::*;
use crate::model::{AiProviderType, ProviderCapability, has_capability, copy_capabilities};
use crate::sorting::{sort_by_keys, sort_keyed, keyed, map_items, items, stable_sort_by,
    lemma_sort_map, lemma_stable_sort_by_sorted, lemma_stable_sort_by_permutes};
use crate::text::{concat, copy_opt_string};

verus! {

/// The mathematical content of a [`ProviderConfig`].
pub struct ConfigModel {
    pub id: Seq<char>,
    pub label: Seq<char>,
    pub provider_type: AiProviderType,
    pub base_url: Option<Seq<char>>,
    pub default_model: Seq<char>,
    pub enabled: bool,
    pub priority: u32,
    pub capabilities: Seq<ProviderCapability>,
    pub api_key_ref: Option<Seq<char>>,
}

/// An optional string, by its characters.
pub open spec fn opt_chars(o: Option<String>) -> Option<Seq<char>> {
    match o {
        Some(s) => Some(s@),
        None => None,
    }
}

/// One configured AI backend.
#[derive(Debug)]
pub struct ProviderConfig {
    pub id: String,
    pub label: String,
    pub provider_type: AiProviderType,
    pub base_url: Option<String>,
    pub default_model: String,
    pub enabled: bool,
    pub priority: u32,
    pub capabilities: Vec<ProviderCapability>,
    pub api_key_ref: Option<String>,
}

impl View for ProviderConfig {
    type V = ConfigModel;

    open spec fn view(&self) -> ConfigModel {
        ConfigModel {
            id: self.id@,
            label: self.label@,
            provider_type: self.provider_type,
            base_url: opt_chars(self.base_url),
            default_model: self.default_model@,
            enabled: self.enabled,
            priority: self.priority,
            capabilities: self.capabilities@,
            api_key_ref: opt_chars(self.api_key_ref),
        }
    }
}

/// The contents of a list of configs.
pub open spec fn models(s: Seq<ProviderConfig>) -> Seq<ConfigModel> {
    s.map_values(|c: ProviderConfig| c@)
}

/// The key reference used when a config names none: `ai.provider.<id>.apiKey`.
pub open spec fn default_key_ref(id: Seq<char>) -> Seq<char> {
    "ai.provider."@ + id + ".apiKey"@
}

/// The keychain reference under which a config's API key is stored.
pub open spec fn key_ref_of(c: ConfigModel) -> Seq<char> {
    match c.api_key_ref {
        Some(r) => r,
        None => default_key_ref(c.id),
    }
}

/// The sort key of a config: its priority.
pub open spec fn priority_key(c: ConfigModel) -> u64 {
    c.priority as u64
}

/// Configs in priority order, ties kept in list order.
pub open spec fn by_priority(s: Seq<ConfigModel>) -> Seq<ConfigModel> {
    stable_sort_by(s, |c: ConfigModel| priority_key(c))
}

/// Providers are enabled unless the settings say otherwise.
pub fn default_enabled() -> (r: bool)
    ensures
        r,
{
    true
}

/// Providers are text providers unless the settings say otherwise.
pub fn default_capabilities() -> (r: Vec<ProviderCapability>)
    ensures
        r@ == seq![ProviderCapability::Text],
{
    let mut v: Vec<ProviderCapability> = Vec::new();
    v.push(ProviderCapability::Text);
    v
}

/// `ai.provider.<id>.apiKey`.
pub fn default_key_ref_for(id: &str) -> (r: String)
    ensures
        r@ == default_key_ref(id@),
{
    let a = concat("ai.provider.", id);
    let r = concat(a.as_str(), ".apiKey");
    assert(r@ == "ai.provider."@ + id@ + ".apiKey"@);
    r
}

impl ProviderConfig {
    /// Whether this provider lists `capability`.
    pub fn supports(&self, capability: ProviderCapability) -> (r: bool)
        ensures
            r == self@.capabilities.contains(capability),
    {
        has_capability(&self.capabilities, capability)
    }

    /// The keychain reference of this provider's API key: the configured one,
    /// else `ai.provider.<id>.apiKey`.
    pub fn api_key_ref(&self) -> (r: String)
        ensures
            r@ == key_ref_of(self@),
    {
        match &self.api_key_ref {
            Some(r) => r.clone(),
            None => default_key_ref_for(self.id.as_str()),
        }
    }

    /// A field-by-field copy.
    pub fn duplicate(&self) -> (r: Self)
        ensures
            r@ == self@,
    {
        ProviderConfig {
            id: self.id.clone(),
            label: self.label.clone(),
            provider_type: self.provider_type,
            base_url: copy_opt_string(&self.base_url),
            default_model: self.default_model.clone(),
            enabled: self.enabled,
            priority: self.priority,
            capabilities: copy_capabilities(&self.capabilities),
            api_key_ref: copy_opt_string(&self.api_key_ref),
        }
    }
}

/// A copy of a list of configs.
pub fn copy_configs(v: &Vec<ProviderConfig>) -> (r: Vec<ProviderConfig>)
    ensures
        models(r@) == models(v@),
{
    let mut out: Vec<ProviderConfig> = Vec::new();
    let mut i: usize = 0;
    while i < v.len()
        invariant
            i <= v.len(),
            out.len() == i,
            models(out@) == models(v@.take(i as int)),
        decreases v.len() - i,
    {
        let ghost prev = out@;
        out.push(v[i].duplicate());
        assert(out@ == prev.push(out@[i as int]));
        assert(models(out@) =~= models(prev).push(v@[i as int]@));
        assert(v@.take(i + 1) == v@.take(i as int).push(v@[i as int]));
        assert(models(v@.take(i + 1)) =~= models(v@.take(i as int)).push(v@[i as int]@));
        i = i + 1;
    }
    assert(v@.take(v.len() as int) == v@);
    out
}

/// Sorts configs stably by the given keys (one per config, in list order).
pub(crate) fn sort_configs(
    v: Vec<ProviderConfig>,
    keys: &Vec<u64>,
    Ghost(key): Ghost<spec_fn(ConfigModel) -> u64>,
) -> (r: Vec<ProviderConfig>)
    requires
        keys.len() == v.len(),
        forall|i: int| 0 <= i < v.len() ==> keys@[i] == key(#[trigger] v@[i]@),
    ensures
        models(r@) == stable_sort_by(models(v@), key),
{
    let ghost orig = v@;
    let ghost vf = |c: ProviderConfig| c@;
    let mut input = v;
    let mut pairs: Vec<(ProviderConfig, u64)> = Vec::new();
    let n = input.len();
    let mut i: usize = 0;
    assert(orig.skip(0) == orig);
    while i < n
        invariant
            n == orig.len() == keys.len(),
            i <= n,
            input@ == orig.skip(i as int),
            forall|j: int| 0 <= j < n ==> keys@[j] == key(#[trigger] orig[j]@),
            map_items(pairs@, vf) == keyed(models(orig), key).take(i as int),
            pairs.len() == i,
            vf == (|c: ProviderConfig| c@),
        decreases n - i,
    {
        let c = input.remove(0);
        assert(c == orig[i as int]);
        assert(input@ == orig.skip(i + 1));
        let k = keys[i];
        let ghost prev = pairs@;
        pairs.push((c, k));
        assert(pairs@ == prev.push((c, k)));
        assert(vf(c) == c@);
        assert(map_items(pairs@, vf) =~= map_items(prev, vf).push((c@, k)));
        assert(keyed(models(orig), key)[i as int] == (orig[i as int]@, key(orig[i as int]@)));
        assert(keyed(models(orig), key).take(i + 1) =~= keyed(models(orig), key).take(
            i as int,
        ).push((c@, k)));
        i = i + 1;
    }
    assert(keyed(models(orig), key).take(n as int) == keyed(models(orig), key));
    let sorted = sort_by_keys(pairs);
    proof {
        lemma_sort_map(pairs@, vf);
    }
    let ghost target = items(map_items(sorted@, vf));
    assert(target == stable_sort_by(models(orig), key));
    let mut rest = sorted;
    let mut out: Vec<ProviderConfig> = Vec::new();
    let ghost sorted_seq = rest@;
    let m = rest.len();
    let mut j: usize = 0;
    assert(sorted_seq.skip(0) == sorted_seq);
    while j < m
        invariant
            m == sorted_seq.len(),
            j <= m,
            rest@ == sorted_seq.skip(j as int),
            target == items(map_items(sorted_seq, vf)),
            models(out@) == target.take(j as int),
            out.len() == j,
            vf == (|c: ProviderConfig| c@),
        decreases m - j,
    {
        let (c, _k) = rest.remove(0);
        assert((c, _k) == sorted_seq[j as int]);
        assert(rest@ == sorted_seq.skip(j + 1));
        let ghost prev = out@;
        out.push(c);
        assert(out@ == prev.push(c));
        assert(models(out@) =~= models(prev).push(c@));
        assert(vf(c) == c@);
        assert(map_items(sorted_seq, vf)[j as int] == (vf(c), _k));
        assert(target[j as int] == c@);
        assert(target.take(j + 1) =~= target.take(j as int).push(c@));
        j = j + 1;
    }
    assert(target.take(m as int) =~= target);
    out
}

/// Saved provider settings: the providers and the default choice per task.
#[derive(Debug)]
pub struct ProviderSettings {
    pub default_text_provider_id: Option<String>,
    pub default_transcription_provider_id: Option<String>,
    pub providers: Vec<ProviderConfig>,
}

/// The contents of [`ProviderSettings`].
pub struct SettingsModel {
    pub default_text_provider_id: Option<Seq<char>>,
    pub default_transcription_provider_id: Option<Seq<char>>,
    pub providers: Seq<ConfigModel>,
}

impl View for ProviderSettings {
    type V = SettingsModel;

    open spec fn view(&self) -> SettingsModel {
        SettingsModel {
            default_text_provider_id: opt_chars(self.default_text_provider_id),
            default_transcription_provider_id: opt_chars(self.default_transcription_provider_id),
            providers: models(self.providers@),
        }
    }
}

impl ProviderSettings {
    /// The providers in priority order; providers of equal priority keep
    /// their list order.
    pub fn sorted_providers(&self) -> (r: Vec<ProviderConfig>)
        ensures
            models(r@) == by_priority(models(self.providers@)),
    {
        let copy = copy_configs(&self.providers);
        sort_by_priority(copy)
    }
}

/// Configs in priority order; configs of equal priority keep their order.
pub fn sort_by_priority(v: Vec<ProviderConfig>) -> (r: Vec<ProviderConfig>)
    ensures
        models(r@) == by_priority(models(v@)),
{
    let mut keys: Vec<u64> = Vec::new();
    let mut i: usize = 0;
    while i < v.len()
        invariant
            i <= v.len(),
            keys.len() == i,
            forall|j: int| 0 <= j < i ==> keys@[j] == priority_key(#[trigger] v@[j]@),
        decreases v.len() - i,
    {
        keys.push(v[i].priority as u64);
        i = i + 1;
    }
    let ghost key = |c: ConfigModel| priority_key(c);
    sort_configs(v, &keys, Ghost(key))
}

/// Priority order lists every provider exactly once, lowest priority number first.
pub proof fn lemma_priority_order(s: Seq<ConfigModel>)
    ensures
        by_priority(s).to_multiset() == s.to_multiset(),
        by_priority(s).len() == s.len(),
        forall|i: int, j: int|
            0 <= i <= j < s.len() ==> by_priority(s)[i].priority <= by_priority(s)[j].priority,
{
    let key = |c: ConfigModel| priority_key(c);
    lemma_stable_sort_by_sorted(s, key);
    lemma_stable_sort_by_permutes(s, key);
    assert forall|i: int, j: int|
        0 <= i <= j < s.len() implies by_priority(s)[i].priority <= by_priority(s)[j].priority by {
        assert(key(stable_sort_by(s, key)[i]) <= key(stable_sort_by(s, key)[j]));
    }
}

} // verus!
