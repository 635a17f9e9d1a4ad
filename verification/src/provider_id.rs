//! Provider identifiers: the slug rule that turns any label into an id.

use vstd::prelude::*;
use crate::text::{chars_of, string_of, trim_char_chars, trim_char, trim_start_char,
    trim_end_char, lower_char, to_lower_char};

verus! {

/// One character of an id: lower-case ASCII letters and digits stay,
/// upper-case ASCII letters are lowered, anything else becomes `-`.
pub open spec fn id_char(c: char) -> char {
    if ('a' <= c && c <= 'z') || ('0' <= c && c <= '9') {
        c
    } else if 'A' <= c && c <= 'Z' {
        lower_char(c)
    } else {
        '-'
    }
}

/// Every run of consecutive `-` replaced by a single `-`.
pub open spec fn collapse_dashes(s: Seq<char>) -> Seq<char>
    decreases s.len(),
{
    if s.len() < 2 {
        s
    } else if s.last() == '-' && s[s.len() - 2] == '-' {
        collapse_dashes(s.drop_last())
    } else {
        collapse_dashes(s.drop_last()).push(s.last())
    }
}

/// The id made from `raw`: characters mapped by [`id_char`], runs of `-`
/// collapsed, and `-` trimmed from both ends.
pub open spec fn sanitized_id(raw: Seq<char>) -> Seq<char> {
    trim_char(collapse_dashes(raw.map_values(|c: char| id_char(c))), '-')
}

/// A character that may appear in an id.
pub open spec fn is_id_char(c: char) -> bool {
    ('a' <= c && c <= 'z') || ('0' <= c && c <= '9') || c == '-'
}

/// A well-formed id: only id characters, no `--`, no `-` at either end.
pub open spec fn is_clean_id(s: Seq<char>) -> bool {
    &&& forall|i: int| 0 <= i < s.len() ==> is_id_char(#[trigger] s[i])
    &&& forall|i: int| 0 <= i < s.len() - 1 ==> !(#[trigger] s[i] == '-' && s[i + 1] == '-')
    &&& (s.len() > 0 ==> s[0] != '-' && s.last() != '-')
}

/// The id character of one character.
pub fn id_char_exec(c: char) -> (r: char)
    ensures
        r == id_char(c),
{
    if ('a' <= c && c <= 'z') || ('0' <= c && c <= '9') {
        c
    } else if 'A' <= c && c <= 'Z' {
        to_lower_char(c)
    } else {
        '-'
    }
}

/// Turns any text into a provider id (see [`sanitized_id`]):
/// `"My Custom Provider!"` becomes `"my-custom-provider"`.
pub fn sanitize_provider_id(raw: &str) -> (r: String)
    ensures
        r@ == sanitized_id(raw@),
{
    let v = chars_of(raw);
    let mut mapped: Vec<char> = Vec::new();
    let mut i: usize = 0;
    while i < v.len()
        invariant
            i <= v.len(),
            mapped@ == v@.take(i as int).map_values(|c: char| id_char(c)),
        decreases v.len() - i,
    {
        mapped.push(id_char_exec(v[i]));
        i = i + 1;
        assert(mapped@ =~= v@.take(i as int).map_values(|c: char| id_char(c)));
    }
    assert(v@.take(v.len() as int) == v@);
    let ghost m = mapped@;
    let mut collapsed: Vec<char> = Vec::new();
    let mut j: usize = 0;
    while j < mapped.len()
        invariant
            j <= mapped.len(),
            mapped@ == m,
            collapsed@ == collapse_dashes(m.take(j as int)),
        decreases mapped.len() - j,
    {
        let c = mapped[j];
        assert(m.take(j + 1).drop_last() == m.take(j as int));
        if !(j > 0 && c == '-' && mapped[j - 1] == '-') {
            collapsed.push(c);
        }
        j = j + 1;
    }
    assert(m.take(m.len() as int) == m);
    let t = trim_char_chars(&collapsed, '-');
    string_of(&t)
}

// ───────────────────────────── laws ─────────────────────────────

proof fn lemma_collapse_last(s: Seq<char>)
    requires
        s.len() > 0,
    ensures
        collapse_dashes(s).len() > 0,
        collapse_dashes(s).last() == s.last(),
    decreases s.len(),
{
    if s.len() >= 2 && s.last() == '-' && s[s.len() - 2] == '-' {
        lemma_collapse_last(s.drop_last());
    }
}

proof fn lemma_collapse_props(s: Seq<char>)
    requires
        forall|i: int| 0 <= i < s.len() ==> is_id_char(#[trigger] s[i]),
    ensures
        forall|i: int| 0 <= i < collapse_dashes(s).len() ==> is_id_char(
            #[trigger] collapse_dashes(s)[i],
        ),
        forall|i: int|
            0 <= i < collapse_dashes(s).len() - 1 ==> !(#[trigger] collapse_dashes(s)[i] == '-'
                && collapse_dashes(s)[i + 1] == '-'),
        s.len() > 0 ==> collapse_dashes(s).len() > 0 && collapse_dashes(s)[0] == s[0],
    decreases s.len(),
{
    if s.len() >= 2 {
        let t = s.drop_last();
        lemma_collapse_props(t);
        lemma_collapse_last(t);
        let ct = collapse_dashes(t);
        if s.last() == '-' && s[s.len() - 2] == '-' {
        } else {
            let r = ct.push(s.last());
            assert forall|i: int| 0 <= i < r.len() - 1 implies !(#[trigger] r[i] == '-' && r[i
                + 1] == '-') by {
                if i == r.len() - 2 {
                    assert(r[i] == ct.last());
                    assert(ct.last() == t.last());
                    assert(t.last() == s[s.len() - 2]);
                } else {
                    assert(r[i] == ct[i] && r[i + 1] == ct[i + 1]);
                }
            }
        }
    }
}

proof fn lemma_collapse_clean(s: Seq<char>)
    requires
        forall|i: int| 0 <= i < s.len() - 1 ==> !(#[trigger] s[i] == '-' && s[i + 1] == '-'),
    ensures
        collapse_dashes(s) == s,
    decreases s.len(),
{
    if s.len() >= 2 {
        let t = s.drop_last();
        assert forall|i: int| 0 <= i < t.len() - 1 implies !(#[trigger] t[i] == '-' && t[i + 1]
            == '-') by {
            assert(t[i] == s[i] && t[i + 1] == s[i + 1]);
        }
        lemma_collapse_clean(t);
        assert(!(s[s.len() - 2] == '-' && s[s.len() - 1] == '-'));
        assert(t.push(s.last()) == s);
    }
}

proof fn lemma_trim_start_subrange(s: Seq<char>, c: char)
    ensures
        exists|k: int|
            0 <= k <= s.len() && trim_start_char(s, c) == s.subrange(k, s.len() as int),
        trim_start_char(s, c).len() > 0 ==> trim_start_char(s, c)[0] != c,
        trim_start_char(s, c).len() > 0 ==> trim_start_char(s, c).last() == s.last(),
    decreases s.len(),
{
    if s.len() > 0 && s[0] == c {
        lemma_trim_start_subrange(s.drop_first(), c);
        let k = choose|k: int|
            0 <= k <= s.drop_first().len() && trim_start_char(s.drop_first(), c)
                == s.drop_first().subrange(k, s.drop_first().len() as int);
        assert(s.drop_first().subrange(k, s.drop_first().len() as int) == s.subrange(
            k + 1,
            s.len() as int,
        ));
    } else {
        assert(s.subrange(0, s.len() as int) == s);
    }
}

proof fn lemma_trim_end_subrange(s: Seq<char>, c: char)
    ensures
        exists|k: int| 0 <= k <= s.len() && trim_end_char(s, c) == s.subrange(0, k),
        trim_end_char(s, c).len() > 0 ==> trim_end_char(s, c).last() != c,
        trim_end_char(s, c).len() > 0 ==> trim_end_char(s, c)[0] == s[0],
    decreases s.len(),
{
    if s.len() > 0 && s.last() == c {
        lemma_trim_end_subrange(s.drop_last(), c);
        let k = choose|k: int|
            0 <= k <= s.drop_last().len() && trim_end_char(s.drop_last(), c)
                == s.drop_last().subrange(0, k);
        assert(s.drop_last().subrange(0, k) == s.subrange(0, k));
    } else {
        assert(s.subrange(0, s.len() as int) == s);
    }
}

proof fn lemma_trim_start_noop(s: Seq<char>, c: char)
    requires
        s.len() == 0 || s[0] != c,
    ensures
        trim_start_char(s, c) == s,
{
}

proof fn lemma_trim_end_noop(s: Seq<char>, c: char)
    requires
        s.len() == 0 || s.last() != c,
    ensures
        trim_end_char(s, c) == s,
{
}

/// Every id the rule produces is well formed: only `a-z`, `0-9` and `-`,
/// never `--`, and no `-` at either end.
pub proof fn lemma_sanitized_id_is_clean(raw: Seq<char>)
    ensures
        is_clean_id(sanitized_id(raw)),
{
    let m = raw.map_values(|c: char| id_char(c));
    assert forall|i: int| 0 <= i < m.len() implies is_id_char(#[trigger] m[i]) by {
        let c = raw[i];
        if 'A' <= c && c <= 'Z' {
            assert(lower_char(c) == ((c as u32) + 32) as char);
        }
    }
    lemma_collapse_props(m);
    let cd = collapse_dashes(m);
    lemma_trim_start_subrange(cd, '-');
    let ts = trim_start_char(cd, '-');
    let k1 = choose|k: int| 0 <= k <= cd.len() && ts == cd.subrange(k, cd.len() as int);
    lemma_trim_end_subrange(ts, '-');
    let r = trim_end_char(ts, '-');
    let k2 = choose|k: int| 0 <= k <= ts.len() && r == ts.subrange(0, k);
    assert forall|i: int| 0 <= i < r.len() implies is_id_char(#[trigger] r[i]) by {
        assert(r[i] == cd[k1 + i]);
    }
    assert forall|i: int| 0 <= i < r.len() - 1 implies !(#[trigger] r[i] == '-' && r[i + 1]
        == '-') by {
        assert(r[i] == cd[k1 + i] && r[i + 1] == cd[k1 + i + 1]);
    }
}

/// Applying the rule to an id changes nothing.
pub proof fn lemma_sanitize_clean_id(s: Seq<char>)
    requires
        is_clean_id(s),
    ensures
        sanitized_id(s) == s,
{
    let m = s.map_values(|c: char| id_char(c));
    assert(m =~= s);
    lemma_collapse_clean(s);
    lemma_trim_start_noop(s, '-');
    lemma_trim_end_noop(s, '-');
}

/// The id rule is idempotent: sanitizing an id again gives the same id.
pub proof fn lemma_sanitize_idempotent(raw: Seq<char>)
    ensures
        sanitized_id(sanitized_id(raw)) == sanitized_id(raw),
{
    lemma_sanitized_id_is_clean(raw);
    lemma_sanitize_clean_id(sanitized_id(raw));
}

} // verus!
