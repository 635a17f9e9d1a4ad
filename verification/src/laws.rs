//! Properties of the library as a whole, each proved from the contracts of
//! the functions it speaks of.

use vstd::prelude::*;
use crate::config::{ConfigModel, SettingsModel, by_priority, lemma_priority_order};
use crate::gateway::{candidate_key, candidate_order, eligible};
use crate::model::{AiProviderType, ProviderCapability};
use crate::provider_id::{is_clean_id, lemma_sanitized_id_is_clean, sanitized_id};
use crate::providers::transcription_order;
use crate::settings::{InputModel, ShownProvider, WorkspaceProviderModel, add_missing,
    builtin_providers, chosen_default_id, default_base_url_of, fits_capability, has_id, index_of_id,
    merged_settings, normalized_input, normalized_settings, ready_for, renormalized, resolved_default,
    saved_inputs, saved_settings, upsert, upsert_all, workspace_config};
use crate::search::{find_first, lemma_find_first_props};
use crate::sorting::{lemma_stable_sort_by_permutes, lemma_stable_sort_by_sorted, stable_sort_by};
use crate::state::{EntryModel, KeyModel};
use crate::text::{ends_with, is_ws, trim_end_char, trim_end_seq, trim_ws, trim_start_ws, trim_end_ws};
use crate::whisper::{normalized_audio_base, probe_outcome, unsupported_endpoint_text};
use crate::transcription::worth_next_provider;
use crate::text::{contains, is_blank, lower, lower_char, occurs_at};

verus! {

broadcast use vstd::seq_lib::group_to_multiset_ensures;

// ───────────────────────────── transcript cache ─────────────────────────────

/// A transcript read back under the key it was cached under is the one
/// that was cached.
pub proof fn law_cache_read_after_write(m: Map<KeyModel, EntryModel>, k: KeyModel, e: EntryModel)
    ensures
        m.insert(k, e).contains_key(k),
        m.insert(k, e)[k] == e,
{
}

/// Caching a transcript under one key leaves every other key as it was: a
/// transcript of another backend, provider or model is never overwritten
/// or reused.
pub proof fn law_cache_write_isolated(
    m: Map<KeyModel, EntryModel>,
    k: KeyModel,
    e: EntryModel,
    other: KeyModel,
)
    requires
        other != k,
    ensures
        m.insert(k, e).contains_key(other) == m.contains_key(other),
        m.contains_key(other) ==> m.insert(k, e)[other] == m[other],
{
}

/// After clearing a clip, nothing of that clip is cached and every
/// transcript of other clips is still there, unchanged.
pub proof fn law_clear_for_is_exact(
    before: Map<KeyModel, EntryModel>,
    after: Map<KeyModel, EntryModel>,
    path: Seq<char>,
)
    requires
        forall|k: KeyModel| #[trigger] after.contains_key(k) <==> (before.contains_key(k) && k.path != path),
        forall|k: KeyModel| #[trigger] after.contains_key(k) ==> after[k] == before[k],
    ensures
        forall|k: KeyModel| after.contains_key(k) ==> k.path != path,
        forall|k: KeyModel|
            before.contains_key(k) && k.path != path ==> after.contains_key(k) && after[k] == before[k],
{
    assert forall|k: KeyModel| before.contains_key(k) && k.path != path implies after.contains_key(k)
        && after[k] == before[k] by {
        assert(after.contains_key(k) <==> (before.contains_key(k) && k.path != path));
    }
}

// ───────────────────────────── gateway ─────────────────────────────

/// The gateway only ever goes to enabled providers that can do the job, and
/// to each of them exactly once.
pub proof fn law_candidates_are_the_eligible_providers(
    configs: Seq<ConfigModel>,
    capability: ProviderCapability,
    preferred_id: Option<Seq<char>>,
    preferred_type: Option<AiProviderType>,
)
    ensures
        candidate_order(configs, capability, preferred_id, preferred_type).to_multiset()
            == configs.filter(|c: ConfigModel| eligible(c, capability)).to_multiset(),
        forall|i: int|
            0 <= i < candidate_order(configs, capability, preferred_id, preferred_type).len()
                ==> eligible(
                #[trigger] candidate_order(configs, capability, preferred_id, preferred_type)[i],
                capability,
            ),
{
    let f = configs.filter(|c: ConfigModel| eligible(c, capability));
    let key = |c: ConfigModel| candidate_key(c, preferred_id, preferred_type);
    lemma_stable_sort_by_permutes(f, key);
    let r = candidate_order(configs, capability, preferred_id, preferred_type);
    assert forall|i: int| 0 <= i < r.len() implies eligible(#[trigger] r[i], capability) by {
        assert(r.to_multiset().count(r[i]) > 0);
        assert(f.to_multiset().count(r[i]) > 0);
        assert(f.contains(r[i]));
        let j = choose|j: int| 0 <= j < f.len() && f[j] == r[i];
        configs.lemma_filter_pred(|c: ConfigModel| eligible(c, capability), j);
    }
}

/// When the preferred provider can do the job, the gateway tries it first.
pub proof fn law_preferred_provider_first(
    configs: Seq<ConfigModel>,
    capability: ProviderCapability,
    preferred_id: Seq<char>,
    preferred_type: Option<AiProviderType>,
)
    requires
        exists|i: int|
            0 <= i < configs.len() && #[trigger] eligible(configs[i], capability) && configs[i].id
                == preferred_id,
    ensures
        candidate_order(configs, capability, Some(preferred_id), preferred_type).len() > 0,
        candidate_order(configs, capability, Some(preferred_id), preferred_type)[0].id == preferred_id,
{
    let pred = |c: ConfigModel| eligible(c, capability);
    let f = configs.filter(pred);
    let key = |c: ConfigModel| candidate_key(c, Some(preferred_id), preferred_type);
    let i = choose|i: int|
        0 <= i < configs.len() && #[trigger] eligible(configs[i], capability) && configs[i].id
            == preferred_id;
    let c = configs[i];
    configs.lemma_filter_contains(pred, i);
    assert(f.contains(c));
    lemma_stable_sort_by_permutes(f, key);
    lemma_stable_sort_by_sorted(f, key);
    let r = stable_sort_by(f, key);
    assert(f.to_multiset().count(c) > 0);
    assert(r.to_multiset().count(c) > 0);
    assert(r.contains(c));
    let j = choose|j: int| 0 <= j < r.len() && r[j] == c;
    assert(key(r[0]) <= key(r[j]));
    assert(key(c) < 0x2_0000_0000);
    if r[0].id != preferred_id {
        assert(key(r[0]) >= 0x2_0000_0000);
    }
}

// ───────────────────────────── settings ─────────────────────────────

/// Normalizing saved settings never loses a built-in provider: each one is
/// present afterwards (added back when it was missing).
pub proof fn law_normalized_settings_keep_builtins(m: SettingsModel, us: Seq<Seq<char>>, d: int)
    requires
        0 <= d < builtin_providers().len(),
    ensures
        has_id(normalized_settings(m, us).providers, builtin_providers()[d].id),
{
    let base = renormalized(m.providers, us);
    lemma_add_missing_has(base, builtin_providers(), d);
    let all = add_missing(base, builtin_providers());
    let id = builtin_providers()[d].id;
    let k = choose|k: int| 0 <= k < all.len() && #[trigger] all[k].id == id;
    lemma_priority_order(all);
    let sorted = by_priority(all);
    assert(all.to_multiset().count(all[k]) > 0);
    assert(sorted.to_multiset().count(all[k]) > 0);
    assert(sorted.contains(all[k]));
    let j = choose|j: int| 0 <= j < sorted.len() && sorted[j] == all[k];
    assert(sorted[j].id == id);
}

proof fn lemma_add_missing_keeps(ps: Seq<ConfigModel>, ds: Seq<ConfigModel>, id: Seq<char>)
    requires
        has_id(ps, id),
    ensures
        has_id(add_missing(ps, ds), id),
    decreases ds.len(),
{
    if ds.len() > 0 {
        let next = if has_id(ps, ds[0].id) {
            ps
        } else {
            ps.push(ds[0])
        };
        let k = choose|k: int| 0 <= k < ps.len() && #[trigger] ps[k].id == id;
        assert(next[k].id == id);
        lemma_add_missing_keeps(next, ds.drop_first(), id);
    }
}

proof fn lemma_add_missing_has(ps: Seq<ConfigModel>, ds: Seq<ConfigModel>, d: int)
    requires
        0 <= d < ds.len(),
    ensures
        has_id(add_missing(ps, ds), ds[d].id),
    decreases ds.len(),
{
    let next = if has_id(ps, ds[0].id) {
        ps
    } else {
        ps.push(ds[0])
    };
    if d == 0 {
        if !has_id(ps, ds[0].id) {
            assert(next[ps.len() as int].id == ds[0].id);
        }
        lemma_add_missing_keeps(next, ds.drop_first(), ds[0].id);
    } else {
        assert(ds.drop_first()[d - 1] == ds[d]);
        lemma_add_missing_has(next, ds.drop_first(), d - 1);
    }
}

/// A submitted provider always comes out of normalization with a
/// well-formed id and at least one capability.
pub proof fn law_normalized_input_is_well_formed(m: InputModel, fresh: Seq<char>)
    ensures
        normalized_input(m, fresh).id is Some,
        is_clean_id(normalized_input(m, fresh).id->0),
        normalized_input(m, fresh).capabilities.len() > 0,
{
    if crate::settings::usable_id(m.id) {
        lemma_sanitized_id_is_clean(m.id->0);
    } else {
        lemma_sanitized_id_is_clean(m.label + "-"@ + fresh);
    }
}

// ───────────────────────────── audio endpoint ─────────────────────────────

proof fn lemma_trim_ws_noop(s: Seq<char>)
    requires
        s.len() > 0,
        !is_ws(s[0]),
        !is_ws(s.last()),
    ensures
        trim_ws(s) == s,
{
}

proof fn lemma_not_ends_with_last(s: Seq<char>, suffix: Seq<char>)
    requires
        s.len() > 0,
        suffix.len() > 0,
        s.last() != suffix.last(),
    ensures
        !ends_with(s, suffix),
{
    if ends_with(s, suffix) {
        let t = s.subrange(s.len() - suffix.len(), s.len() as int);
        assert(t[suffix.len() - 1] == s.last());
    }
}

/// An audio base URL that already ends with `/v1` (with no surrounding
/// whitespace or trailing slash) is kept as it is.
pub proof fn law_v1_base_is_kept(raw: Seq<char>)
    requires
        ends_with(raw, "/v1"@),
        !is_ws(raw[0]),
    ensures
        normalized_audio_base(raw) == raw,
{
    reveal_strlit("/v1");
    reveal_strlit("/audio/transcriptions");
    reveal_strlit("/chat/completions");
    reveal_strlit("/models");
    reveal_strlit("/completions");
    let t = raw.subrange(raw.len() - 3, raw.len() as int);
    assert(t[2] == raw.last());
    assert(raw.last() == '1');
    lemma_trim_ws_noop(raw);
    assert(trim_end_char(raw, '/') == raw);
    lemma_not_ends_with_last(raw, "/audio/transcriptions"@);
    lemma_not_ends_with_last(raw, "/chat/completions"@);
    lemma_not_ends_with_last(raw, "/models"@);
    lemma_not_ends_with_last(raw, "/completions"@);
}

/// A full chat-completions URL on a `/v1` base resolves to that base.
pub proof fn law_chat_endpoint_resolves_to_base(base: Seq<char>)
    requires
        ends_with(base, "/v1"@),
        !is_ws(base[0]),
    ensures
        normalized_audio_base(base + "/chat/completions"@) == base,
{
    reveal_strlit("/v1");
    reveal_strlit("/audio/transcriptions");
    reveal_strlit("/chat/completions");
    let chat = "/chat/completions"@;
    let audio = "/audio/transcriptions"@;
    let s = base + chat;
    let t3 = base.subrange(base.len() - 3, base.len() as int);
    assert(t3[2] == base.last());
    assert(base.last() == '1');
    assert(s[0] == base[0]);
    assert(s.last() == 's');
    lemma_trim_ws_noop(s);
    assert(trim_end_char(s, '/') == s);
    if ends_with(s, audio) {
        let tail = s.subrange(s.len() - audio.len(), s.len() as int);
        assert(tail[4] == s[s.len() - 17]);
        assert(s[s.len() - 17] == chat[0]);
        assert(audio[4] == 'i');
    }
    assert(s.subrange(s.len() - chat.len(), s.len() as int) =~= chat);
    assert(s.subrange(0, s.len() - chat.len()) =~= base);
    lemma_not_ends_with_last(base, chat);
    assert(trim_end_seq(base, chat) == base);
    assert(trim_end_seq(s, chat) == base);
    assert(trim_end_char(base, '/') == base);
}


/// The default provider the settings screen shows for a capability is one
/// of the listed providers, and it is ready for that capability.
pub proof fn law_shown_default_is_ready(
    ps: Seq<ShownProvider>,
    preferred: Option<Seq<char>>,
    capability: ProviderCapability,
)
    ensures
        resolved_default(ps, preferred, capability) matches Some(x) ==> ps.contains(x) && ready_for(
            x,
            capability,
        ),
{
    lemma_find_first_props(ps, |p: ShownProvider| ready_for(p, capability));
    if let Some(id) = preferred {
        lemma_find_first_props(ps, |p: ShownProvider| p.id == id && ready_for(p, capability));
    }
}

/// A saved default provider id always names a submitted provider that is
/// enabled and can do the job.
pub proof fn law_saved_default_names_fitting_provider(
    raw: Option<Seq<char>>,
    ps: Seq<InputModel>,
    capability: ProviderCapability,
)
    ensures
        chosen_default_id(raw, ps, capability) matches Some(id) ==> exists|i: int|
            0 <= i < ps.len() && #[trigger] fits_capability(ps[i], capability) && ps[i].id == Some(id),
{
    let fits = |p: InputModel| fits_capability(p, capability);
    lemma_find_first_props(ps, fits);
    if let Some(id) = chosen_default_id(raw, ps, capability) {
        let via_raw = match raw {
            Some(v) => exists|i: int|
                0 <= i < ps.len() && #[trigger] fits_capability(ps[i], capability) && ps[i].id == Some(
                    crate::provider_id::sanitized_id(v),
                ),
            None => false,
        };
        if !via_raw {
            let p = find_first(ps, fits)->0;
            let i = choose|i: int| 0 <= i < ps.len() && ps[i] == p;
            assert(fits_capability(ps[i], capability));
        }
    }
}

// ───────────────────────────── cloud transcription ─────────────────────────────

proof fn lemma_lower_keeps_tail(m: Seq<char>, needle: Seq<char>)
    requires
        ends_with(m, needle),
        forall|j: int| 0 <= j < needle.len() ==> !('A' <= #[trigger] needle[j] && needle[j] <= 'Z'),
    ensures
        contains(lower(m), needle),
{
    let i = m.len() - needle.len();
    assert forall|j: int| 0 <= j < needle.len() implies #[trigger] lower(m).subrange(i, m.len() as int)[j]
        == needle[j] by {
        assert(m.subrange(i, m.len() as int)[j] == needle[j]);
        assert(m[i + j] == needle[j]);
        assert(lower(m)[i + j] == lower_char(m[i + j]));
    }
    assert(lower(m).subrange(i, m.len() as int) =~= needle);
    assert(occurs_at(lower(m), needle, i));
}

proof fn lemma_unsupported_endpoint_moves_on()
    ensures
        worth_next_provider(unsupported_endpoint_text()),
{
    reveal_strlit("Selected provider does not expose an OpenAI-compatible audio transcription endpoint. Use OpenAI for cloud transcription, or keep this provider for text-only tasks.");
    reveal_strlit("does not expose an openai-compatible audio transcription endpoint");
    let m = unsupported_endpoint_text();
    let needle = "does not expose an openai-compatible audio transcription endpoint"@;
    assert(lower_char('O') == 'o');
    assert(lower_char('A') == 'a');
    assert(lower_char('I') == 'i');
    assert(lower(m).subrange(18, 18 + needle.len() as int) =~= needle);
    assert(occurs_at(lower(m), needle, 18));
}

/// Every failure that probing an audio endpoint reports (a missing endpoint,
/// a key or permission problem, a rate limit or a server error) makes a
/// cloud transcription move on to the next provider.
pub proof fn law_probe_failures_move_on(status: u16, status_text: Seq<char>, body: Seq<char>)
    ensures
        probe_outcome(status, status_text, body) matches Err(m) ==> worth_next_provider(m),
{
    reveal_strlit("permission denied");
    reveal_strlit("temporarily unavailable");
    reveal_strlit(": invalid API key or permission denied");
    reveal_strlit(": provider temporarily unavailable");
    if let Err(m) = probe_outcome(status, status_text, body) {
        if m == unsupported_endpoint_text() {
            lemma_unsupported_endpoint_moves_on();
        } else if status == 401 || status == 403 {
            let tail = ": invalid API key or permission denied"@;
            let head = "Audio transcription probe failed "@ + status_text;
            assert(m == head + tail);
            assert(tail.subrange(tail.len() - 17, tail.len() as int) =~= "permission denied"@);
            assert(m.subrange(m.len() - 17, m.len() as int) =~= tail.subrange(tail.len() - 17, tail.len() as int));
            lemma_lower_keeps_tail(m, "permission denied"@);
        } else {
            let tail = ": provider temporarily unavailable"@;
            let head = "Audio transcription probe failed "@ + status_text;
            assert(m == head + tail);
            assert(tail.subrange(tail.len() - 23, tail.len() as int) =~= "temporarily unavailable"@);
            assert(m.subrange(m.len() - 23, m.len() as int) =~= tail.subrange(tail.len() - 23, tail.len() as int));
            lemma_lower_keeps_tail(m, "temporarily unavailable"@);
        }
    }
}

// ───────────────────────────── provider choices ─────────────────────────────

/// With a preferred provider type (and no preferred id), every candidate of
/// that type is tried before every candidate of another type.
pub proof fn law_preferred_type_first(
    configs: Seq<ConfigModel>,
    capability: ProviderCapability,
    preferred_type: AiProviderType,
)
    ensures
        forall|i: int, j: int|
            0 <= i < j < candidate_order(configs, capability, None, Some(preferred_type)).len()
                && (#[trigger] candidate_order(configs, capability, None, Some(preferred_type))[j]).provider_type
                == preferred_type ==> (#[trigger] candidate_order(
                configs,
                capability,
                None,
                Some(preferred_type),
            )[i]).provider_type == preferred_type,
{
    let f = configs.filter(|c: ConfigModel| eligible(c, capability));
    let key = |c: ConfigModel| candidate_key(c, None, Some(preferred_type));
    lemma_stable_sort_by_sorted(f, key);
    let r = candidate_order(configs, capability, None, Some(preferred_type));
    assert forall|i: int, j: int|
        0 <= i < j < r.len() && (#[trigger] r[j]).provider_type == preferred_type implies (
        #[trigger] r[i]).provider_type == preferred_type by {
        assert(key(r[i]) <= key(r[j]));
        assert(key(r[j]) == r[j].priority);
        if r[i].provider_type != preferred_type {
            assert(key(r[i]) == 0x1_0000_0000 + r[i].priority);
        }
    }
}

/// A submitted provider that gives a (non-blank) base URL is saved with that
/// URL, trimmed; its family's default base URL is used only when it gives none.
pub proof fn law_saved_provider_keeps_its_base_url(
    ps: Seq<InputModel>,
    us: Seq<Seq<char>>,
    default_text: Option<Seq<char>>,
    default_transcription: Option<Seq<char>>,
    i: int,
)
    requires
        0 <= i < ps.len(),
    ensures
        ({
            let saved = saved_settings(default_text, default_transcription, saved_inputs(ps, us)).providers[i];
            &&& ps[i].base_url matches Some(b) ==> (!is_blank(b) ==> saved.base_url == Some(trim_ws(b)))
            &&& (ps[i].base_url is None || is_blank(ps[i].base_url->0)) ==> saved.base_url
                == default_base_url_of(ps[i].provider_type)
        }),
{
}

proof fn lemma_index_of_id_at(ps: Seq<ConfigModel>, id: Seq<char>)
    ensures
        index_of_id(ps, id) matches Some(i) ==> 0 <= i < ps.len() && ps[i].id == id,
    decreases ps.len(),
{
    if ps.len() > 0 {
        lemma_index_of_id_at(ps.drop_last(), id);
    }
}

proof fn lemma_upsert_has_and_keeps(ps: Seq<ConfigModel>, c: ConfigModel)
    ensures
        upsert(ps, c).contains(c),
        forall|x: ConfigModel| ps.contains(x) && x.id != c.id ==> upsert(ps, c).contains(x),
{
    lemma_index_of_id_at(ps, c.id);
    let u = upsert(ps, c);
    match index_of_id(ps, c.id) {
        Some(i) => {
            assert(u[i] == c);
            assert forall|x: ConfigModel| ps.contains(x) && x.id != c.id implies u.contains(x) by {
                let j = choose|j: int| 0 <= j < ps.len() && ps[j] == x;
                assert(j != i);
                assert(u[j] == x);
            }
        },
        None => {
            assert(u[ps.len() as int] == c);
            assert forall|x: ConfigModel| ps.contains(x) && x.id != c.id implies u.contains(x) by {
                let j = choose|j: int| 0 <= j < ps.len() && ps[j] == x;
                assert(u[j] == x);
            }
        },
    }
}

proof fn lemma_upsert_all_keeps(ps: Seq<ConfigModel>, cs: Seq<ConfigModel>, x: ConfigModel)
    requires
        ps.contains(x),
        forall|l: int| 0 <= l < cs.len() ==> (#[trigger] cs[l]).id != x.id,
    ensures
        upsert_all(ps, cs).contains(x),
    decreases cs.len(),
{
    if cs.len() > 0 {
        lemma_upsert_has_and_keeps(ps, cs[0]);
        assert forall|l: int| 0 <= l < cs.drop_first().len() implies (#[trigger] cs.drop_first()[l]).id
            != x.id by {
            assert(cs.drop_first()[l] == cs[l + 1]);
        }
        lemma_upsert_all_keeps(upsert(ps, cs[0]), cs.drop_first(), x);
    }
}

proof fn lemma_upsert_all_has(ps: Seq<ConfigModel>, cs: Seq<ConfigModel>, k: int)
    requires
        0 <= k < cs.len(),
        forall|l: int| k < l < cs.len() ==> (#[trigger] cs[l]).id != cs[k].id,
    ensures
        upsert_all(ps, cs).contains(cs[k]),
    decreases cs.len(),
{
    lemma_upsert_has_and_keeps(ps, cs[0]);
    if k == 0 {
        assert forall|l: int| 0 <= l < cs.drop_first().len() implies (#[trigger] cs.drop_first()[l]).id
            != cs[0].id by {
            assert(cs.drop_first()[l] == cs[l + 1]);
        }
        lemma_upsert_all_keeps(upsert(ps, cs[0]), cs.drop_first(), cs[0]);
    } else {
        assert(cs.drop_first()[k - 1] == cs[k]);
        assert forall|l: int| k - 1 < l < cs.drop_first().len() implies (
        #[trigger] cs.drop_first()[l]).id != cs.drop_first()[k - 1].id by {
            assert(cs.drop_first()[l] == cs[l + 1]);
        }
        lemma_upsert_all_has(upsert(ps, cs[0]), cs.drop_first(), k - 1);
    }
}

/// A provider declared in the workspace configuration (the last one with its
/// id) is in the merged settings under its sanitized id; when it does not
/// say whether it is enabled it is merged as enabled, else as it says.
pub proof fn law_workspace_provider_is_merged(
    m: SettingsModel,
    default_text: Option<Seq<char>>,
    default_transcription: Option<Seq<char>>,
    ws: Seq<WorkspaceProviderModel>,
    k: int,
)
    requires
        0 <= k < ws.len(),
        forall|l: int| k < l < ws.len() ==> sanitized_id((#[trigger] ws[l]).id) != sanitized_id(ws[k].id),
    ensures
        exists|i: int|
            0 <= i < merged_settings(m, default_text, default_transcription, ws).providers.len() && {
                let c = #[trigger] merged_settings(m, default_text, default_transcription, ws).providers[i];
                &&& c.id == sanitized_id(ws[k].id)
                &&& ws[k].enabled is None ==> c.enabled
                &&& ws[k].enabled matches Some(e) ==> c.enabled == e
            },
{
    let cs = ws.map_values(|p: WorkspaceProviderModel| workspace_config(p));
    assert forall|l: int| k < l < cs.len() implies (#[trigger] cs[l]).id != cs[k].id by {
        assert(cs[l] == workspace_config(ws[l]));
    }
    lemma_upsert_all_has(m.providers, cs, k);
    let all = upsert_all(m.providers, cs);
    lemma_priority_order(all);
    let sorted = by_priority(all);
    let c = cs[k];
    assert(c == workspace_config(ws[k]));
    assert(all.to_multiset().count(c) > 0);
    assert(sorted.to_multiset().count(c) > 0);
    assert(sorted.contains(c));
    let i = choose|i: int| 0 <= i < sorted.len() && sorted[i] == c;
    assert(merged_settings(m, default_text, default_transcription, ws).providers[i] == c);
}

/// Every provider a cloud transcription may go to is enabled, OpenAI-compatible
/// and able to transcribe.
pub proof fn law_transcription_candidates_can_transcribe(m: SettingsModel, requested: Option<Seq<char>>)
    ensures
        forall|i: int|
            0 <= i < transcription_order(m, requested).len() ==> {
                let c = #[trigger] transcription_order(m, requested)[i];
                &&& c.enabled
                &&& c.provider_type == AiProviderType::OpenAi
                &&& c.capabilities.contains(ProviderCapability::Transcription)
            },
{
    let preferred = crate::providers::preferred_transcription_id(requested, m);
    let s = stable_sort_by(
        by_priority(m.providers),
        |c: ConfigModel| crate::providers::transcription_key(c, preferred),
    );
    let pred = |c: ConfigModel| crate::providers::can_transcribe(c);
    assert forall|i: int| 0 <= i < transcription_order(m, requested).len() implies {
        let c = #[trigger] transcription_order(m, requested)[i];
        &&& c.enabled
        &&& c.provider_type == AiProviderType::OpenAi
        &&& c.capabilities.contains(ProviderCapability::Transcription)
    } by {
        s.lemma_filter_pred(pred, i);
    }
}

/// When the saved default provider is listed and ready for the capability,
/// it is the default shown for that capability.
pub proof fn law_ready_saved_default_is_shown(
    ps: Seq<ShownProvider>,
    id: Seq<char>,
    capability: ProviderCapability,
)
    requires
        exists|i: int| 0 <= i < ps.len() && (#[trigger] ps[i]).id == id && ready_for(ps[i], capability),
    ensures
        resolved_default(ps, Some(id), capability) matches Some(x) && x.id == id && ready_for(x, capability),
{
    let pred = |p: ShownProvider| p.id == id && ready_for(p, capability);
    lemma_find_first_props(ps, pred);
    let i = choose|i: int| 0 <= i < ps.len() && (#[trigger] ps[i]).id == id && ready_for(ps[i], capability);
    assert(pred(ps[i]));
}

} // verus!
