//! File paths compared as the platform compares them: by components, so that
//! repeated separators, `.` components (but a leading one) and a trailing
//! separator make no difference.

use vstd::prelude::*;
use crate::text::{chars_of, concat_chars, slice_chars, string_of};

verus! {

/// A component that stands for the current directory.
pub open spec fn is_dot(part: Seq<char>) -> bool {
    part.len() == 1 && part[0] == '.'
}

/// The root alone.
pub open spec fn is_root(out: Seq<char>) -> bool {
    out.len() == 1 && out[0] == '/'
}

/// The canonical form so far, `out`, extended with the component `part`:
/// empty components and `.` are dropped, except a `.` that starts a relative
/// path; components are separated by a single `/`.
pub open spec fn add_part(out: Seq<char>, part: Seq<char>) -> Seq<char> {
    if part.len() == 0 {
        out
    } else if is_dot(part) && out.len() > 0 {
        out
    } else if out.len() == 0 {
        part
    } else if is_root(out) {
        out + part
    } else {
        out + seq!['/'] + part
    }
}

/// The state after reading some characters of a path: the canonical form of
/// the components read so far, the component being read, and whether nothing
/// has been read yet.
pub open spec fn path_state(s: Seq<char>) -> (Seq<char>, Seq<char>, bool)
    decreases s.len(),
{
    if s.len() == 0 {
        (Seq::empty(), Seq::empty(), true)
    } else {
        let st = path_state(s.drop_last());
        let c = s.last();
        if c == '/' {
            if st.2 {
                (seq!['/'], Seq::empty(), false)
            } else {
                (add_part(st.0, st.1), Seq::empty(), false)
            }
        } else {
            (st.0, st.1.push(c), false)
        }
    }
}

/// The canonical form of a path: two paths name the same file exactly when
/// their components are equal, which is when their canonical forms are.
pub open spec fn path_key(s: Seq<char>) -> Seq<char> {
    add_part(path_state(s).0, path_state(s).1)
}

fn add_part_exec(out: &Vec<char>, part: &Vec<char>) -> (r: Vec<char>)
    ensures
        r@ == add_part(out@, part@),
{
    if part.len() == 0 || (part.len() == 1 && part[0] == '.' && out.len() > 0) {
        slice_chars(out, 0, out.len())
    } else if out.len() == 0 {
        slice_chars(part, 0, part.len())
    } else if out.len() == 1 && out[0] == '/' {
        concat_chars(out, part)
    } else {
        let mut sep: Vec<char> = Vec::new();
        sep.push('/');
        let a = concat_chars(out, &sep);
        assert(sep@ =~= seq!['/']);
        concat_chars(&a, part)
    }
}

/// The canonical form of a path (see [`path_key`]).
pub fn normalized_path(path: &str) -> (r: String)
    ensures
        r@ == path_key(path@),
{
    let v = chars_of(path);
    let mut out: Vec<char> = Vec::new();
    let mut part: Vec<char> = Vec::new();
    let mut at_start = true;
    let mut i: usize = 0;
    assert(v@.take(0) =~= Seq::<char>::empty());
    while i < v.len()
        invariant
            i <= v.len(),
            (out@, part@, at_start) == path_state(v@.take(i as int)),
        decreases v.len() - i,
    {
        let c = v[i];
        assert(v@.take(i + 1).drop_last() == v@.take(i as int));
        assert(v@.take(i + 1).last() == c);
        if c == '/' {
            if at_start {
                let mut root: Vec<char> = Vec::new();
                root.push('/');
                assert(root@ =~= seq!['/']);
                out = root;
            } else {
                out = add_part_exec(&out, &part);
            }
            part = Vec::new();
            assert(part@ =~= Seq::<char>::empty());
        } else {
            part.push(c);
        }
        at_start = false;
        i = i + 1;
    }
    assert(v@.take(v.len() as int) == v@);
    let r = add_part_exec(&out, &part);
    string_of(&r)
}

} // verus!
