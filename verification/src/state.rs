//! The caches shared by the app's commands: decoded audio samples per clip,
//! and transcripts.
//!
//! A transcript is cached per source file *and* per backend, provider and
//! model, so that switching providers never silently reuses another
//! provider's output.

use vstd::prelude::*;
use crate::config::opt_chars;
use crate::paths::{normalized_path, path_key};
use crate::model::{TranscriptionSegment, copy_segments};
use crate::text::{str_eq, trim, trimmed_opt, copy_opt_string};

verus! {

/// The contents of a [`TranscriptCacheKey`].
pub struct KeyModel {
    pub path: Seq<char>,
    pub backend: Seq<char>,
    pub provider_id: Option<Seq<char>>,
    pub model: Seq<char>,
}

/// The contents of a [`TranscriptEntry`].
pub struct EntryModel {
    pub backend: Seq<char>,
    pub provider_id: Option<Seq<char>>,
    pub model: Seq<char>,
    pub language: Option<Seq<char>>,
    pub segments: Seq<TranscriptionSegment>,
}

/// Snapshot of one transcription run for one clip.
#[derive(Debug)]
pub struct TranscriptEntry {
    pub backend: String,
    pub provider_id: Option<String>,
    pub model: String,
    pub language: Option<String>,
    pub segments: Vec<TranscriptionSegment>,
}

impl View for TranscriptEntry {
    type V = EntryModel;

    open spec fn view(&self) -> EntryModel {
        EntryModel {
            backend: self.backend@,
            provider_id: opt_chars(self.provider_id),
            model: self.model@,
            language: opt_chars(self.language),
            segments: self.segments@,
        }
    }
}

impl TranscriptEntry {
    /// A field-by-field copy.
    pub fn duplicate(&self) -> (r: Self)
        ensures
            r@ == self@,
    {
        TranscriptEntry {
            backend: self.backend.clone(),
            provider_id: copy_opt_string(&self.provider_id),
            model: self.model.clone(),
            language: copy_opt_string(&self.language),
            segments: copy_segments(&self.segments),
        }
    }
}

/// What a cached transcript is filed under.
#[derive(Debug)]
pub struct TranscriptCacheKey {
    pub path: String,
    pub backend: String,
    pub provider_id: Option<String>,
    pub model: String,
}

impl View for TranscriptCacheKey {
    type V = KeyModel;

    open spec fn view(&self) -> KeyModel {
        KeyModel {
            path: path_key(self.path@),
            backend: self.backend@,
            provider_id: opt_chars(self.provider_id),
            model: self.model@,
        }
    }
}

fn opt_str_eq(a: &Option<String>, b: &Option<String>) -> (r: bool)
    ensures
        r == (opt_chars(*a) == opt_chars(*b)),
{
    match (a, b) {
        (Some(x), Some(y)) => str_eq(x.as_str(), y.as_str()),
        (None, None) => true,
        _ => false,
    }
}

impl TranscriptCacheKey {
    /// The key for a clip and a transcription setup; the provider id is
    /// trimmed and dropped when blank.
    pub fn new(path: String, backend: String, provider_id: Option<String>, model: String) -> (r:
        Self)
        ensures
            r@.path == path_key(path@),
            r@.backend == backend@,
            r@.provider_id == trimmed_opt(opt_chars(provider_id)),
            r@.model == model@,
    {
        let provider_id = match provider_id {
            Some(v) => {
                let t = trim(v.as_str());
                if t.as_str().is_empty() {
                    None
                } else {
                    Some(t)
                }
            },
            None => None,
        };
        TranscriptCacheKey { path, backend, provider_id, model }
    }

    /// Whether two keys file the same transcript.
    pub fn same_as(&self, other: &Self) -> (r: bool)
        ensures
            r == (self@ == other@),
    {
        let a = normalized_path(self.path.as_str());
        let b = normalized_path(other.path.as_str());
        str_eq(a.as_str(), b.as_str()) && str_eq(
            self.backend.as_str(),
            other.backend.as_str(),
        ) && opt_str_eq(&self.provider_id, &other.provider_id) && str_eq(
            self.model.as_str(),
            other.model.as_str(),
        )
    }
}

} // verus!

verus! {

/// The map that a list of cached (key, transcript) pairs stands for.
pub open spec fn cache_map(s: Seq<(TranscriptCacheKey, TranscriptEntry)>) -> Map<KeyModel, EntryModel> {
    Map::new(
        |k: KeyModel| exists|i: int| 0 <= i < s.len() && #[trigger] s[i].0@ == k,
        |k: KeyModel| s[choose|i: int| 0 <= i < s.len() && #[trigger] s[i].0@ == k].1@,
    )
}

/// No key is listed twice.
pub open spec fn distinct_keys(s: Seq<(TranscriptCacheKey, TranscriptEntry)>) -> bool {
    forall|i: int, j: int|
        0 <= i < s.len() && 0 <= j < s.len() && i != j ==> #[trigger] s[i].0@ != #[trigger] s[j].0@
}

proof fn lemma_cache_map_at(s: Seq<(TranscriptCacheKey, TranscriptEntry)>, i: int)
    requires
        distinct_keys(s),
        0 <= i < s.len(),
    ensures
        cache_map(s).contains_key(s[i].0@),
        cache_map(s)[s[i].0@] == s[i].1@,
{
    let k = s[i].0@;
    assert(exists|j: int| 0 <= j < s.len() && #[trigger] s[j].0@ == k);
    let j = choose|j: int| 0 <= j < s.len() && #[trigger] s[j].0@ == k;
    assert(j == i);
}

/// The map that a list of cached (path, samples) pairs stands for.
pub open spec fn sample_map<S>(s: Seq<(String, S)>) -> Map<Seq<char>, S> {
    Map::new(
        |p: Seq<char>| exists|i: int| 0 <= i < s.len() && #[trigger] path_key(s[i].0@) == p,
        |p: Seq<char>| s[choose|i: int| 0 <= i < s.len() && #[trigger] path_key(s[i].0@) == p].1,
    )
}

/// No path is listed twice.
pub open spec fn distinct_paths<S>(s: Seq<(String, S)>) -> bool {
    forall|i: int, j: int|
        0 <= i < s.len() && 0 <= j < s.len() && i != j ==> #[trigger] path_key(s[i].0@) != #[trigger] path_key(s[j].0@)
}

proof fn lemma_sample_map_at<S>(s: Seq<(String, S)>, i: int)
    requires
        distinct_paths(s),
        0 <= i < s.len(),
    ensures
        sample_map(s).contains_key(path_key(s[i].0@)),
        sample_map(s)[path_key(s[i].0@)] == s[i].1,
{
    let k = path_key(s[i].0@);
    assert(exists|j: int| 0 <= j < s.len() && #[trigger] path_key(s[j].0@) == k);
    let j = choose|j: int| 0 <= j < s.len() && #[trigger] path_key(s[j].0@) == k;
    assert(j == i);
}

/// The app's shared caches: the decoded audio samples of each clip (of the
/// caller's sample type `S`) and the transcripts.
pub struct AppState<S> {
    pcm: Vec<(String, S)>,
    transcripts: Vec<(TranscriptCacheKey, TranscriptEntry)>,
}

impl<S> AppState<S> {
    #[verifier::type_invariant]
    spec fn keys_are_distinct(&self) -> bool {
        &&& distinct_keys(self.transcripts@)
        &&& distinct_paths(self.pcm@)
    }

    /// The cached transcripts, by key.
    pub closed spec fn view(&self) -> Map<KeyModel, EntryModel> {
        cache_map(self.transcripts@)
    }

    /// The cached audio samples, by clip path.
    pub closed spec fn samples(&self) -> Map<Seq<char>, S> {
        sample_map(self.pcm@)
    }

    /// Empty caches.
    pub fn new() -> (r: Self)
        ensures
            r.view() == Map::<KeyModel, EntryModel>::empty(),
            r.samples() == Map::<Seq<char>, S>::empty(),
    {
        let r = AppState { pcm: Vec::new(), transcripts: Vec::new() };
        assert(r.view() =~= Map::<KeyModel, EntryModel>::empty());
        assert(r.samples() =~= Map::<Seq<char>, S>::empty());
        r
    }

    fn find_samples(&self, path: &str) -> (r: Option<usize>)
        ensures
            match r {
                Some(i) => i < self.pcm@.len() && path_key(self.pcm@[i as int].0@) == path_key(path@),
                None => forall|i: int| 0 <= i < self.pcm@.len() ==> #[trigger] path_key(self.pcm@[i].0@) != path_key(path@),
            },
    {
        let target = normalized_path(path);
        let mut i: usize = 0;
        while i < self.pcm.len()
            invariant
                i <= self.pcm@.len(),
                target@ == path_key(path@),
                forall|j: int| 0 <= j < i ==> #[trigger] path_key(self.pcm@[j].0@) != path_key(path@),
            decreases self.pcm.len() - i,
        {
            let here = normalized_path(self.pcm[i].0.as_str());
            if str_eq(here.as_str(), target.as_str()) {
                return Some(i);
            }
            i = i + 1;
        }
        None
    }

    /// The audio samples cached for the clip at `path`, if any.
    pub fn pcm_get(&self, path: &str) -> (r: Option<&S>)
        ensures
            r is Some <==> self.samples().contains_key(path_key(path@)),
            r matches Some(x) ==> *x == self.samples()[path_key(path@)],
    {
        proof {
            use_type_invariant(self);
        }
        match self.find_samples(path) {
            Some(i) => {
                proof {
                    lemma_sample_map_at(self.pcm@, i as int);
                }
                Some(&self.pcm[i].1)
            },
            None => None,
        }
    }

    /// Caches the audio samples of the clip at `path`, replacing what was
    /// cached for it; the transcripts are left as they are.
    pub fn pcm_put(&mut self, path: String, samples: S)
        ensures
            final(self).samples() == old(self).samples().insert(path_key(path@), samples),
            final(self).view() == old(self).view(),
    {
        proof {
            use_type_invariant(&*self);
        }
        let ghost old_map = self.samples();
        let found = self.find_samples(path.as_str());
        let mut v: Vec<(String, S)> = Vec::new();
        std::mem::swap(&mut v, &mut self.pcm);
        let ghost s = v@;
        let ghost k = path_key(path@);
        let ghost e = samples;
        match found {
            Some(i) => {
                v.set(i, (path, samples));
            },
            None => {
                v.push((path, samples));
            },
        }
        proof {
            let t = v@;
            assert(distinct_paths(t)) by {
                assert forall|a: int, b: int|
                    0 <= a < t.len() && 0 <= b < t.len() && a != b implies #[trigger] path_key(t[a].0@)
                    != #[trigger] path_key(t[b].0@) by {
                    if found is Some {
                        let i = found->0 as int;
                        if a != i && b != i {
                            assert(t[a] == s[a] && t[b] == s[b]);
                        } else if a == i {
                            assert(t[b] == s[b]);
                            assert(path_key(s[i].0@) == k);
                        } else {
                            assert(t[a] == s[a]);
                            assert(path_key(s[i].0@) == k);
                        }
                    } else {
                        if a < s.len() && b < s.len() {
                            assert(t[a] == s[a] && t[b] == s[b]);
                        } else if a < s.len() {
                            assert(t[a] == s[a]);
                        } else {
                            assert(t[b] == s[b]);
                        }
                    }
                }
            }
            assert forall|q: Seq<char>| #[trigger] sample_map(t).contains_key(q)
                <==> old_map.insert(k, e).contains_key(q) by {
                if sample_map(t).contains_key(q) {
                    let j = choose|j: int| 0 <= j < t.len() && #[trigger] path_key(t[j].0@) == q;
                    if q != k {
                        assert(t[j] == s[j]);
                        assert(old_map.contains_key(q));
                    }
                }
                if old_map.contains_key(q) && q != k {
                    let j = choose|j: int| 0 <= j < s.len() && #[trigger] path_key(s[j].0@) == q;
                    assert(t[j] == s[j]);
                    assert(sample_map(t).contains_key(q));
                }
                if q == k {
                    let i = if found is Some {
                        found->0 as int
                    } else {
                        s.len() as int
                    };
                    assert(path_key(t[i].0@) == k);
                    assert(sample_map(t).contains_key(q));
                }
            }
            assert forall|q: Seq<char>| #[trigger] sample_map(t).contains_key(q) implies sample_map(
                t,
            )[q] == old_map.insert(k, e)[q] by {
                let j = choose|j: int| 0 <= j < t.len() && #[trigger] path_key(t[j].0@) == q;
                lemma_sample_map_at(t, j);
                if q != k {
                    assert(t[j] == s[j]);
                    lemma_sample_map_at(s, j);
                }
            }
            assert(sample_map(t) =~= old_map.insert(k, e));
        }
        self.pcm = v;
    }

    /// Drops the audio samples cached for the clip at `path`.
    fn drop_samples(&mut self, path: &str)
        ensures
            final(self).samples() == old(self).samples().remove(path_key(path@)),
            final(self).view() == old(self).view(),
    {
        proof {
            use_type_invariant(&*self);
        }
        let ghost old_map = self.samples();
        match self.find_samples(path) {
            Some(i) => {
                let mut v: Vec<(String, S)> = Vec::new();
                std::mem::swap(&mut v, &mut self.pcm);
                let ghost s = v@;
                v.remove(i);
                proof {
                    let t = v@;
                    assert(t == s.remove(i as int));
                    assert forall|a: int| 0 <= a < t.len() implies #[trigger] t[a] == s[if a < i {
                        a
                    } else {
                        a + 1
                    }] by {}
                    assert(distinct_paths(t)) by {
                        assert forall|a: int, b: int|
                            0 <= a < t.len() && 0 <= b < t.len() && a != b implies #[trigger] path_key(t[a].0@)
                            != #[trigger] path_key(t[b].0@) by {
                            let a2 = if a < i { a } else { a + 1 };
                            let b2 = if b < i { b } else { b + 1 };
                            assert(t[a] == s[a2] && t[b] == s[b2]);
                        }
                    }
                    assert forall|q: Seq<char>| #[trigger] sample_map(t).contains_key(q)
                        <==> old_map.remove(path_key(path@)).contains_key(q) by {
                        if sample_map(t).contains_key(q) {
                            let a = choose|a: int| 0 <= a < t.len() && #[trigger] path_key(t[a].0@) == q;
                            let a2 = if a < i { a } else { a + 1 };
                            assert(t[a] == s[a2]);
                            assert(a2 != i);
                            assert(old_map.contains_key(q));
                        }
                        if old_map.contains_key(q) && q != path_key(path@) {
                            let j = choose|j: int| 0 <= j < s.len() && #[trigger] path_key(s[j].0@) == q;
                            assert(j != i);
                            let a = if j < i { j } else { j - 1 };
                            assert(t[a] == s[j]);
                            assert(sample_map(t).contains_key(q));
                        }
                    }
                    assert forall|q: Seq<char>| #[trigger] sample_map(t).contains_key(q) implies sample_map(
                        t,
                    )[q] == old_map.remove(path_key(path@))[q] by {
                        let a = choose|a: int| 0 <= a < t.len() && #[trigger] path_key(t[a].0@) == q;
                        let a2 = if a < i { a } else { a + 1 };
                        assert(t[a] == s[a2]);
                        lemma_sample_map_at(t, a);
                        lemma_sample_map_at(s, a2);
                    }
                    assert(sample_map(t) =~= old_map.remove(path_key(path@)));
                }
                self.pcm = v;
            },
            None => {
                assert(self.samples() =~= old_map.remove(path_key(path@)));
            },
        }
    }

    fn find(&self, key: &TranscriptCacheKey) -> (r: Option<usize>)
        ensures
            match r {
                Some(i) => i < self.transcripts@.len() && self.transcripts@[i as int].0@ == key@,
                None => forall|i: int|
                    0 <= i < self.transcripts@.len() ==> #[trigger] self.transcripts@[i].0@
                        != key@,
            },
    {
        let mut i: usize = 0;
        while i < self.transcripts.len()
            invariant
                i <= self.transcripts@.len(),
                forall|j: int| 0 <= j < i ==> #[trigger] self.transcripts@[j].0@ != key@,
            decreases self.transcripts.len() - i,
        {
            if self.transcripts[i].0.same_as(key) {
                return Some(i);
            }
            i = i + 1;
        }
        None
    }

    /// The transcript cached under `key`, if any.
    pub fn transcript_get(&self, key: &TranscriptCacheKey) -> (r: Option<TranscriptEntry>)
        ensures
            r is Some <==> self.view().contains_key(key@),
            r matches Some(e) ==> e@ == self.view()[key@],
    {
        proof {
            use_type_invariant(self);
        }
        match self.find(key) {
            Some(i) => {
                proof {
                    lemma_cache_map_at(self.transcripts@, i as int);
                }
                Some(self.transcripts[i].1.duplicate())
            },
            None => None,
        }
    }

    /// Some transcript cached for the clip at `path`, whatever its backend,
    /// provider or model; none when no transcript of that clip is cached.
    pub fn transcript_get_any_for_path(&self, path: &str) -> (r: Option<TranscriptEntry>)
        ensures
            r is None <==> forall|k: KeyModel| #[trigger]
                self.view().contains_key(k) ==> k.path != path_key(path@),
            r matches Some(e) ==> exists|k: KeyModel|
                #[trigger] self.view().contains_key(k) && k.path == path_key(path@) && self.view()[k]
                    == e@,
    {
        proof {
            use_type_invariant(self);
        }
        let target = normalized_path(path);
        let mut i: usize = 0;
        while i < self.transcripts.len()
            invariant
                i <= self.transcripts@.len(),
                target@ == path_key(path@),
                distinct_keys(self.transcripts@),
                forall|j: int| 0 <= j < i ==> (#[trigger] self.transcripts@[j]).0@.path != path_key(path@),
            decreases self.transcripts.len() - i,
        {
            let here = normalized_path(self.transcripts[i].0.path.as_str());
            if str_eq(here.as_str(), target.as_str()) {
                proof {
                    lemma_cache_map_at(self.transcripts@, i as int);
                    let k = self.transcripts@[i as int].0@;
                    assert(self.view().contains_key(k) && k.path == path_key(path@));
                }
                return Some(self.transcripts[i].1.duplicate());
            }
            i = i + 1;
        }
        assert forall|k: KeyModel| #[trigger] self.view().contains_key(k) implies k.path
            != path_key(path@) by {
            let j = choose|j: int|
                0 <= j < self.transcripts@.len() && #[trigger] self.transcripts@[j].0@ == k;
            assert(self.transcripts@[j].0@.path != path_key(path@));
        }
        None
    }

    /// Caches `entry` under `key`, replacing what was cached there, and
    /// returns a copy of it.
    pub fn transcript_put(&mut self, key: TranscriptCacheKey, entry: TranscriptEntry) -> (r:
        TranscriptEntry)
        ensures
            final(self).view() == old(self).view().insert(key@, entry@),
            final(self).samples() == old(self).samples(),
            r@ == entry@,
    {
        proof {
            use_type_invariant(&*self);
        }
        let ghost old_map = self.view();
        let found = self.find(&key);
        let mut v: Vec<(TranscriptCacheKey, TranscriptEntry)> = Vec::new();
        std::mem::swap(&mut v, &mut self.transcripts);
        let ghost s = v@;
        let ghost k = key@;
        let ghost e = entry@;
        let out = entry.duplicate();
        match found {
            Some(i) => {
                v.set(i, (key, entry));
            },
            None => {
                v.push((key, entry));
            },
        }
        proof {
            let t = v@;
            assert(distinct_keys(t)) by {
                assert forall|a: int, b: int|
                    0 <= a < t.len() && 0 <= b < t.len() && a != b implies #[trigger] t[a].0@
                    != #[trigger] t[b].0@ by {
                    if found is Some {
                        let i = found->0 as int;
                        if a != i && b != i {
                            assert(t[a] == s[a] && t[b] == s[b]);
                        } else if a == i {
                            assert(t[b] == s[b]);
                            assert(s[i].0@ == k);
                        } else {
                            assert(t[a] == s[a]);
                            assert(s[i].0@ == k);
                        }
                    } else {
                        if a < s.len() && b < s.len() {
                            assert(t[a] == s[a] && t[b] == s[b]);
                        } else if a < s.len() {
                            assert(t[a] == s[a]);
                        } else {
                            assert(t[b] == s[b]);
                        }
                    }
                }
            }
            assert forall|q: KeyModel| #[trigger] cache_map(t).contains_key(q)
                <==> old_map.insert(k, e).contains_key(q) by {
                if cache_map(t).contains_key(q) {
                    let j = choose|j: int| 0 <= j < t.len() && #[trigger] t[j].0@ == q;
                    if q != k {
                        assert(t[j] == s[j]);
                        assert(old_map.contains_key(q));
                    }
                }
                if old_map.contains_key(q) && q != k {
                    let j = choose|j: int| 0 <= j < s.len() && #[trigger] s[j].0@ == q;
                    assert(t[j] == s[j]);
                    assert(cache_map(t).contains_key(q));
                }
                if q == k {
                    let i = if found is Some {
                        found->0 as int
                    } else {
                        s.len() as int
                    };
                    assert(t[i].0@ == k);
                    assert(cache_map(t).contains_key(q));
                }
            }
            assert forall|q: KeyModel| #[trigger] cache_map(t).contains_key(q) implies cache_map(
                t,
            )[q] == old_map.insert(k, e)[q] by {
                let j = choose|j: int| 0 <= j < t.len() && #[trigger] t[j].0@ == q;
                lemma_cache_map_at(t, j);
                if q != k {
                    assert(t[j] == s[j]);
                    lemma_cache_map_at(s, j);
                }
            }
            assert(cache_map(t) =~= old_map.insert(k, e));
        }
        self.transcripts = v;
        out
    }

    /// Drops the audio samples and every transcript cached for the clip at
    /// `path`; what is cached for other clips stays.
    pub fn clear_for(&mut self, path: &str)
        ensures
            final(self).samples() == old(self).samples().remove(path_key(path@)),
            forall|k: KeyModel| #[trigger]
                final(self).view().contains_key(k) <==> (old(self).view().contains_key(k)
                    && k.path != path_key(path@)),
            forall|k: KeyModel| #[trigger]
                final(self).view().contains_key(k) ==> final(self).view()[k] == old(
                    self,
                ).view()[k],
    {
        self.drop_samples(path);
        proof {
            use_type_invariant(&*self);
        }
        let mut v: Vec<(TranscriptCacheKey, TranscriptEntry)> = Vec::new();
        std::mem::swap(&mut v, &mut self.transcripts);
        let ghost s = v@;
        let mut kept: Vec<(TranscriptCacheKey, TranscriptEntry)> = Vec::new();
        let ghost mut origin: Seq<int> = Seq::empty();
        let target = normalized_path(path);
        let n = v.len();
        let mut i: usize = 0;
        assert(s.skip(0) == s);
        while i < n
            invariant
                n == s.len(),
                i <= n,
                target@ == path_key(path@),
                distinct_keys(s),
                v@ == s.skip(i as int),
                origin.len() == kept@.len(),
                forall|a: int| 0 <= a < origin.len() ==> 0 <= #[trigger] origin[a] < i,
                forall|a: int, b: int|
                    0 <= a < b < origin.len() ==> #[trigger] origin[a] < #[trigger] origin[b],
                forall|a: int|
                    0 <= a < origin.len() ==> kept@[a] == s[#[trigger] origin[a]],
                forall|j: int|
                    0 <= j < i && s[j].0@.path != path_key(path@) ==> exists|a: int|
                        0 <= a < origin.len() && #[trigger] origin[a] == j,
                forall|a: int| 0 <= a < kept@.len() ==> (#[trigger] kept@[a]).0@.path != path_key(path@),
            decreases n - i,
        {
            let item = v.remove(0);
            assert(item == s[i as int]);
            assert(v@ == s.skip(i + 1));
            let ghost old_origin = origin;
            let here = normalized_path(item.0.path.as_str());
            if !str_eq(here.as_str(), target.as_str()) {
                proof {
                    origin = origin.push(i as int);
                }
                kept.push(item);
                assert(origin[origin.len() - 1] == i);
            }
            proof {
                assert forall|j: int|
                    0 <= j < i + 1 && s[j].0@.path != path_key(path@) implies exists|a: int|
                    0 <= a < origin.len() && #[trigger] origin[a] == j by {
                    if j == i {
                        assert(origin[origin.len() - 1] == j);
                    } else {
                        let a = choose|a: int|
                            0 <= a < old_origin.len() && #[trigger] old_origin[a] == j;
                        assert(origin[a] == old_origin[a]);
                    }
                }
            }
            i = i + 1;
        }
        proof {
            let t = kept@;
            assert(distinct_keys(t)) by {
                assert forall|a: int, b: int|
                    0 <= a < t.len() && 0 <= b < t.len() && a != b implies #[trigger] t[a].0@
                    != #[trigger] t[b].0@ by {
                    assert(origin[a] != origin[b]) by {
                        if a < b {
                            assert(origin[a] < origin[b]);
                        } else {
                            assert(origin[b] < origin[a]);
                        }
                    }
                    assert(t[a] == s[origin[a]] && t[b] == s[origin[b]]);
                }
            }
            assert forall|q: KeyModel| #[trigger] cache_map(t).contains_key(q) <==> (cache_map(
                s,
            ).contains_key(q) && q.path != path_key(path@)) by {
                if cache_map(t).contains_key(q) {
                    let a = choose|a: int| 0 <= a < t.len() && #[trigger] t[a].0@ == q;
                    assert(t[a] == s[origin[a]]);
                    assert(cache_map(s).contains_key(q));
                }
                if cache_map(s).contains_key(q) && q.path != path_key(path@) {
                    let j = choose|j: int| 0 <= j < s.len() && #[trigger] s[j].0@ == q;
                    let a = choose|a: int| 0 <= a < origin.len() && #[trigger] origin[a] == j;
                    assert(t[a] == s[j]);
                    assert(cache_map(t).contains_key(q));
                }
            }
            assert forall|q: KeyModel| #[trigger] cache_map(t).contains_key(q) implies cache_map(
                t,
            )[q] == cache_map(s)[q] by {
                let a = choose|a: int| 0 <= a < t.len() && #[trigger] t[a].0@ == q;
                lemma_cache_map_at(t, a);
                assert(t[a] == s[origin[a]]);
                lemma_cache_map_at(s, origin[a]);
            }
        }
        self.transcripts = kept;
    }

    /// Drops all cached audio samples and transcripts.
    pub fn clear_all(&mut self)
        ensures
            final(self).view() == Map::<KeyModel, EntryModel>::empty(),
            final(self).samples() == Map::<Seq<char>, S>::empty(),
    {
        proof {
            use_type_invariant(&*self);
        }
        self.pcm = Vec::new();
        self.transcripts = Vec::new();
        assert(self.view() =~= Map::<KeyModel, EntryModel>::empty());
        assert(self.samples() =~= Map::<Seq<char>, S>::empty());
    }

    /// Whether no transcript is cached.
    pub fn is_empty(&self) -> (r: bool)
        ensures
            r == (self.view().dom().len() == 0),
    {
        proof {
            use_type_invariant(self);
        }
        if self.transcripts.len() == 0 {
            assert(self.view().dom() =~= Set::<KeyModel>::empty());
            true
        } else {
            proof {
                lemma_cache_map_at(self.transcripts@, 0);
                assert(self.view().dom().contains(self.transcripts@[0].0@));
                assert(self.view().dom().finite()) by {
                    lemma_cache_map_finite(self.transcripts@);
                }
            }
            false
        }
    }
}

proof fn lemma_cache_map_finite(s: Seq<(TranscriptCacheKey, TranscriptEntry)>)
    ensures
        cache_map(s).dom().finite(),
{
    let f = |i: int| s[i].0@;
    let idx = Set::new(|i: int| 0 <= i < s.len());
    assert(idx =~= vstd::set_lib::set_int_range(0, s.len() as int));
    vstd::set_lib::lemma_int_range(0, s.len() as int);
    idx.lemma_map_finite(f);
    assert(cache_map(s).dom() =~= idx.map(f)) by {
        assert forall|k: KeyModel| #[trigger] cache_map(s).dom().contains(k) implies idx.map(
            f,
        ).contains(k) by {
            let j = choose|j: int| 0 <= j < s.len() && #[trigger] s[j].0@ == k;
            assert(idx.contains(j) && f(j) == k);
        }
    }
}

impl<S> Default for AppState<S> {
    /// Empty caches.
    fn default() -> (r: Self)
        ensures
            r.view() == Map::<KeyModel, EntryModel>::empty(),
            r.samples() == Map::<Seq<char>, S>::empty(),
    {
        AppState::new()
    }
}

} // verus!
