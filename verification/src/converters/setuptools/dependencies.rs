//! The optional dependencies of `setup.cfg` metadata.

use crate::strmap::{deep_pairs, lemma_deep_pairs_insert, map_wf, spec_insert, StrMap};
use crate::text;
use crate::text::{spec_lines, spec_trim};
use crate::utils::str_views;
use vstd::prelude::*;

verus! {

/// The extras folded into optional-dependency groups, in the given order:
/// each extra's value is split into its lines.
pub open spec fn spec_optional(extras: Seq<(String, Option<String>)>) -> Seq<
    (Seq<char>, Seq<Seq<char>>),
>
    decreases extras.len(),
{
    if extras.len() == 0 {
        Seq::empty()
    } else {
        let prev = spec_optional(extras.drop_last());
        spec_insert(prev, extras.last().0@, spec_lines(spec_trim(extras.last().1->0@)))
    }
}

/// Turn the `options.extras_require` entries into optional-dependency groups:
/// each extra's multi-line value becomes its dependency list. Every extra must
/// carry a value.
pub fn get_optional(extra_requires: Vec<(String, Option<String>)>) -> (r: Option<
    StrMap<Vec<String>>,
>)
    requires
        forall|j: int| 0 <= j < extra_requires@.len() ==> (#[trigger] extra_requires@[j]).1 is Some,
    ensures
        extra_requires@.len() == 0 ==> r is None,
        extra_requires@.len() > 0 ==> (r matches Some(m) && map_wf(m@) && deep_pairs(m@)
            == spec_optional(extra_requires@)),
{
    let n = extra_requires.len();
    if n == 0 {
        return None;
    }
    let mut out: StrMap<Vec<String>> = StrMap::new();
    let mut i: usize = 0;
    proof {
        assert(extra_requires@.take(0) =~= Seq::<(String, Option<String>)>::empty());
        assert(deep_pairs(out@) =~= Seq::<(Seq<char>, Seq<Seq<char>>)>::empty());
    }
    while i < n
        invariant
            0 <= i <= n,
            n == extra_requires@.len(),
            map_wf(out@),
            forall|j: int|
                0 <= j < extra_requires@.len() ==> (#[trigger] extra_requires@[j]).1 is Some,
            deep_pairs(out@) == spec_optional(extra_requires@.take(i as int)),
        decreases n - i,
    {
        proof {
            assert(extra_requires@.take(i + 1).drop_last() =~= extra_requires@.take(i as int));
            assert(extra_requires@.take(i + 1).last() == extra_requires@[i as int]);
        }
        let entry = &extra_requires[i];
        let extra = entry.0.clone();
        let value = match &entry.1 {
            Some(v) => v,
            None => {
                proof {
                    assert(extra_requires@[i as int].1 is Some);
                    assert(false);
                }
                &entry.0
            },
        };
        let t = text::trim_str(value.as_str());
        let lines = text::split_lines(&t);
        let ghost lv = lines.deep_view();
        let m = lines.len();
        let mut items: Vec<String> = Vec::new();
        let mut j: usize = 0;
        proof {
            assert(str_views(items@) =~= lv.take(0));
        }
        while j < m
            invariant
                0 <= j <= m,
                m == lines@.len(),
                lv == lines.deep_view(),
                lv.len() == m,
                str_views(items@) == lv.take(j as int),
            decreases m - j,
        {
            proof {
                text::lemma_chars_deep_view(&lines@[j as int]);
            }
            let ghost old_items = str_views(items@);
            items.push(text::string_from_chars(&lines[j]));
            j += 1;
            proof {
                assert(str_views(items@) =~= old_items.push(lv[j - 1]));
                assert(str_views(items@) =~= lv.take(j as int));
            }
        }
        proof {
            assert(lv.take(m as int) =~= lv);
            lemma_deep_pairs_insert(out@, extra@, items);
            assert(items.deep_view() =~= str_views(items@));
        }
        out.insert(extra, items);
        i += 1;
    }
    proof {
        assert(extra_requires@.take(n as int) =~= extra_requires@);
    }
    Some(out)
}

} // verus!
