//! Small shared helpers.

use crate::strmap::StrMap;
use crate::text;
use vstd::prelude::*;

verus! {

/// `None` for an empty vector, the vector itself otherwise.
pub fn non_empty_vec<T>(vec: Vec<T>) -> (r: Option<Vec<T>>)
    ensures
        vec@.len() == 0 ==> r is None,
        vec@.len() > 0 ==> (r matches Some(v) && v@ == vec@),
{
    if vec.is_empty() {
        None
    } else {
        Some(vec)
    }
}

/// `None` for an empty map, the map itself otherwise.
pub fn non_empty_index_map<T>(map: StrMap<T>) -> (r: Option<StrMap<T>>)
    ensures
        map@.len() == 0 ==> r is None,
        map@.len() > 0 ==> (r matches Some(m) && m@ == map@),
{
    if map.is_empty() {
        None
    } else {
        Some(map)
    }
}

/// A copy of an optional string.
pub fn clone_opt_string(o: &Option<String>) -> (r: Option<String>)
    ensures
        r == *o,
{
    match o {
        Some(s) => Some(s.clone()),
        None => None,
    }
}

/// A copy of a vector of strings.
pub fn clone_vec_string(v: &Vec<String>) -> (r: Vec<String>)
    ensures
        r@ == v@,
{
    let n = v.len();
    let mut r: Vec<String> = Vec::new();
    let mut i: usize = 0;
    while i < n
        invariant
            0 <= i <= n,
            n == v@.len(),
            r@ == v@.take(i as int),
        decreases n - i,
    {
        r.push(v[i].clone());
        i += 1;
        proof {
            assert(r@ =~= v@.take(i as int));
        }
    }
    proof {
        assert(v@.take(n as int) =~= v@);
    }
    r
}

/// The character sequences of a sequence of strings.
pub open spec fn str_views(s: Seq<String>) -> Seq<Seq<char>> {
    s.map_values(|x: String| x@)
}

pub open spec fn seq_has_str(s: Seq<Seq<char>>, x: Seq<char>) -> bool {
    exists|i: int| 0 <= i < s.len() && s[i] == x
}

/// The sequence with `x` appended unless it is already present.
pub open spec fn spec_add_unique(s: Seq<Seq<char>>, x: Seq<char>) -> Seq<Seq<char>> {
    if seq_has_str(s, x) {
        s
    } else {
        s.push(x)
    }
}

pub fn vec_has_string(v: &Vec<String>, x: &Vec<char>) -> (r: bool)
    ensures
        r == seq_has_str(str_views(v@), x@),
{
    let n = v.len();
    let mut i: usize = 0;
    while i < n
        invariant
            0 <= i <= n,
            n == v@.len(),
            forall|k: int| 0 <= k < i ==> str_views(v@)[k] != x@,
        decreases n - i,
    {
        let cs = text::chars_of(v[i].as_str());
        if text::chars_eq(&cs, x) {
            proof {
                assert(str_views(v@)[i as int] == x@);
            }
            return true;
        }
        i += 1;
    }
    false
}

/// Append `x` unless an equal string is already present.
pub fn push_unique(v: &mut Vec<String>, x: Vec<char>)
    ensures
        str_views(final(v)@) == spec_add_unique(str_views(old(v)@), x@),
{
    if !vec_has_string(v, &x) {
        let ghost old_views = str_views(v@);
        v.push(text::string_from_chars(&x));
        proof {
            assert(str_views(v@) =~= old_views.push(x@));
        }
    }
}

/// Separator characters of a package name.
pub open spec fn is_name_sep(c: char) -> bool {
    c == '-' || c == '_' || c == '.'
}

pub open spec fn norm_rec(s: Seq<char>, prev_sep: bool) -> Seq<char>
    decreases s.len(),
{
    if s.len() == 0 {
        Seq::empty()
    } else if is_name_sep(s[0]) {
        if prev_sep {
            norm_rec(s.drop_first(), true)
        } else {
            seq!['-'] + norm_rec(s.drop_first(), true)
        }
    } else {
        seq![text::spec_lower_char(s[0])] + norm_rec(s.drop_first(), false)
    }
}

/// A package name in normal form: every run of `-`, `_` and `.` collapsed to
/// one `-`, and ASCII letters folded to lower case.
pub open spec fn spec_normalize_name(s: Seq<char>) -> Seq<char> {
    norm_rec(s, false)
}

/// Normalize a dependency name so that differently written names of the same
/// package compare equal.
pub fn normalize_dependency_name(name: &str) -> (r: String)
    ensures
        r@ == spec_normalize_name(name@),
{
    let cs = text::chars_of(name);
    let n = cs.len();
    let mut out: Vec<char> = Vec::new();
    let mut prev_sep = false;
    let mut i: usize = 0;
    proof {
        assert(cs@.skip(0) =~= cs@);
        assert(out@ + norm_rec(cs@, false) =~= norm_rec(cs@, false));
    }
    while i < n
        invariant
            0 <= i <= n,
            n == cs@.len(),
            cs@ == name@,
            spec_normalize_name(name@) == out@ + norm_rec(cs@.skip(i as int), prev_sep),
        decreases n - i,
    {
        proof {
            assert(cs@.skip(i as int).drop_first() =~= cs@.skip(i + 1));
            assert(cs@.skip(i as int)[0] == cs@[i as int]);
        }
        let ghost old_out = out@;
        let c = cs[i];
        if c == '-' || c == '_' || c == '.' {
            if !prev_sep {
                out.push('-');
                proof {
                    assert(old_out + (seq!['-'] + norm_rec(cs@.skip(i + 1), true)) =~= old_out.push(
                        '-',
                    ) + norm_rec(cs@.skip(i + 1), true));
                }
            }
            prev_sep = true;
        } else {
            out.push(text::lower_char(c));
            prev_sep = false;
            proof {
                assert(old_out + (seq![text::spec_lower_char(cs@[i as int])] + norm_rec(
                    cs@.skip(i + 1),
                    false,
                )) =~= old_out.push(text::spec_lower_char(cs@[i as int])) + norm_rec(
                    cs@.skip(i + 1),
                    false,
                ));
            }
        }
        i += 1;
    }
    proof {
        assert(cs@.skip(n as int) =~= Seq::<char>::empty());
        assert(out@ + Seq::<char>::empty() =~= out@);
    }
    text::string_from_chars(&out)
}

} // verus!
