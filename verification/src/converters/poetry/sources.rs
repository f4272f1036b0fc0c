//! Resolution of Poetry package sources into uv indexes.

use crate::schema::poetry::{spec_priority_rank, DependencySpecification, Source, SourcePriority, SourceV};
use crate::schema::uv::{empty_source_index, Index, IndexV, SourceIndex, SourceIndexV};
use crate::text;
use crate::utils::clone_opt_string;
use vstd::prelude::*;

verus! {

/// The source origin a dependency declaration names, if any: a named index
/// wins over a direct URL, which wins over a local path, which wins over a
/// git reference.
pub open spec fn spec_source_index(d: DependencySpecification) -> Option<SourceIndexV> {
    match d {
        DependencySpecification::Detail {
            source,
            url,
            path,
            develop,
            git,
            branch,
            rev,
            tag,
            subdirectory,
            ..
        } => {
            if source is Some {
                Some(SourceIndexV { index: source.deep_view(), ..empty_source_index() })
            } else if url is Some {
                Some(SourceIndexV { url: url.deep_view(), ..empty_source_index() })
            } else if path is Some {
                Some(
                    SourceIndexV {
                        path: path.deep_view(),
                        editable: develop,
                        ..empty_source_index()
                    },
                )
            } else if git is Some {
                Some(
                    SourceIndexV {
                        git: git.deep_view(),
                        branch: branch.deep_view(),
                        rev: rev.deep_view(),
                        tag: tag.deep_view(),
                        subdirectory: subdirectory.deep_view(),
                        ..empty_source_index()
                    },
                )
            } else {
                None
            }
        },
        _ => None,
    }
}

/// Extract the explicit source origin of one dependency declaration.
pub fn get_source_index(dependency_specification: &DependencySpecification) -> (r: Option<
    SourceIndex,
>)
    ensures
        match r {
            Some(si) => spec_source_index(*dependency_specification) == Some(si@),
            None => spec_source_index(*dependency_specification) is None,
        },
{
    match dependency_specification {
        DependencySpecification::Detail {
            source,
            url,
            path,
            develop,
            git,
            branch,
            rev,
            tag,
            subdirectory,
            ..
        } => {
            if source.is_some() {
                Some(SourceIndex { index: clone_opt_string(source), ..SourceIndex::default() })
            } else if url.is_some() {
                Some(SourceIndex { url: clone_opt_string(url), ..SourceIndex::default() })
            } else if path.is_some() {
                Some(
                    SourceIndex {
                        path: clone_opt_string(path),
                        editable: *develop,
                        ..SourceIndex::default()
                    },
                )
            } else if git.is_some() {
                Some(
                    SourceIndex {
                        git: clone_opt_string(git),
                        branch: clone_opt_string(branch),
                        rev: clone_opt_string(rev),
                        tag: clone_opt_string(tag),
                        subdirectory: clone_opt_string(subdirectory),
                        ..SourceIndex::default()
                    },
                )
            } else {
                None
            }
        },
        _ => None,
    }
}

/// A source inserted behind every kept element of no greater rank, so that
/// sorting by rank keeps the original order of equally ranked sources.
pub open spec fn insert_by_rank(sorted: Seq<SourceV>, x: SourceV) -> Seq<SourceV>
    decreases sorted.len(),
{
    if sorted.len() == 0 {
        seq![x]
    } else if spec_priority_rank(sorted.last().priority) <= spec_priority_rank(x.priority) {
        sorted.push(x)
    } else {
        insert_by_rank(sorted.drop_last(), x).push(sorted.last())
    }
}

/// The sources stably sorted by priority rank.
pub open spec fn spec_sort_sources(s: Seq<SourceV>) -> Seq<SourceV>
    decreases s.len(),
{
    if s.len() == 0 {
        Seq::empty()
    } else {
        insert_by_rank(spec_sort_sources(s.drop_last()), s.last())
    }
}

/// How many sources are not explicit-priority.
pub open spec fn count_non_explicit(s: Seq<SourceV>) -> int
    decreases s.len(),
{
    if s.len() == 0 {
        0
    } else {
        count_non_explicit(s.drop_last()) + if s.last().priority == Some(
            SourcePriority::Explicit,
        ) {
            0int
        } else {
            1int
        }
    }
}

pub open spec fn is_defaultish(p: Option<SourcePriority>) -> bool {
    p is None || p == Some(SourcePriority::Primary) || p == Some(SourcePriority::Default)
}

pub open spec fn views_of_sources(s: Seq<Source>) -> Seq<SourceV> {
    s.map_values(|x: Source| x@)
}

pub open spec fn views_of_indexes(s: Seq<Index>) -> Seq<IndexV> {
    s.map_values(|x: Index| x@)
}

/// The index an ordinary source maps to: PyPI keeps its well-known URL, and an
/// explicit source is marked explicit.
pub open spec fn spec_index_of_source(s: SourceV) -> IndexV {
    IndexV {
        name: s.name,
        url: if text::spec_lower(s.name) == "pypi"@ {
            Some("https://pypi.org/simple/"@)
        } else {
            s.url
        },
        default: None,
        explicit: if s.priority == Some(SourcePriority::Explicit) {
            Some(true)
        } else {
            None
        },
    }
}

/// The uv indexes of a Poetry source list: sources are ordered by priority;
/// one single non-explicit source of default-like priority becomes the default
/// index (or disappears when it is PyPI itself); otherwise every source maps
/// to an index in priority order.
pub open spec fn spec_get_indexes(sources: Seq<SourceV>) -> Option<Seq<IndexV>> {
    let sorted = spec_sort_sources(sources);
    if count_non_explicit(sorted) == 1 && sorted.len() > 0 && is_defaultish(sorted[0].priority) {
        if text::spec_lower(sorted[0].name) == "pypi"@ {
            None
        } else {
            Some(
                seq![
                    IndexV {
                        name: sorted[0].name,
                        url: sorted[0].url,
                        default: Some(true),
                        explicit: None,
                    },
                ],
            )
        }
    } else {
        Some(sorted.map_values(|s: SourceV| spec_index_of_source(s)))
    }
}

fn clone_source(s: &Source) -> (r: Source)
    ensures
        r@ == s@,
{
    Source { name: s.name.clone(), url: clone_opt_string(&s.url), priority: s.priority }
}

fn priority_rank(p: &Option<SourcePriority>) -> (r: u8)
    ensures
        r == spec_priority_rank(*p),
{
    match p {
        Some(SourcePriority::Default) => 0,
        Some(SourcePriority::Primary) => 1,
        None => 1,
        Some(SourcePriority::Secondary) => 2,
        Some(SourcePriority::Supplemental) => 3,
        Some(SourcePriority::Explicit) => 4,
    }
}

fn insert_by_rank_exec(sorted: Vec<Source>, x: Source) -> (r: Vec<Source>)
    ensures
        views_of_sources(r@) == insert_by_rank(views_of_sources(sorted@), x@),
    decreases sorted@.len(),
{
    let mut sorted = sorted;
    let ghost sv = views_of_sources(sorted@);
    match sorted.pop() {
        None => {
            sorted.push(x);
            proof {
                assert(views_of_sources(sorted@) =~= seq![x@]);
                assert(sv =~= Seq::<SourceV>::empty());
            }
            sorted
        },
        Some(last) => {
            proof {
                assert(sv.last() == last@);
                assert(views_of_sources(sorted@) =~= sv.drop_last());
            }
            if priority_rank(&last.priority) <= priority_rank(&x.priority) {
                sorted.push(last);
                sorted.push(x);
                proof {
                    assert(views_of_sources(sorted@) =~= sv.push(x@));
                }
                sorted
            } else {
                let mut r = insert_by_rank_exec(sorted, x);
                let ghost rv = views_of_sources(r@);
                r.push(last);
                proof {
                    assert(views_of_sources(r@) =~= rv.push(last@));
                }
                r
            }
        },
    }
}

fn sort_sources(v: Vec<Source>) -> (r: Vec<Source>)
    ensures
        views_of_sources(r@) == spec_sort_sources(views_of_sources(v@)),
{
    let n = v.len();
    let mut v = v;
    let ghost vv = views_of_sources(v@);
    let mut r: Vec<Source> = Vec::new();
    let mut i: usize = 0;
    proof {
        assert(views_of_sources(r@) =~= spec_sort_sources(Seq::empty()));
        assert(vv.take(0) =~= Seq::<SourceV>::empty());
        assert(spec_sort_sources(vv.take(0)) =~= Seq::<SourceV>::empty());
    }
    while i < n
        invariant
            0 <= i <= n,
            n == v@.len(),
            vv == views_of_sources(v@),
            vv.len() == n,
            views_of_sources(r@) == spec_sort_sources(vv.take(i as int)),
        decreases n - i,
    {
        let x = clone_source(&v[i]);
        proof {
            assert(x@ == vv[i as int]);
        }
        r = insert_by_rank_exec(r, x);
        i += 1;
        proof {
            assert(vv.take(i as int).drop_last() =~= vv.take(i - 1));
            assert(vv.take(i as int).last() == vv[i - 1]);
        }
    }
    proof {
        assert(vv.take(n as int) =~= vv);
    }
    r
}

fn count_non_explicit_exec(v: &Vec<Source>) -> (r: usize)
    ensures
        r == count_non_explicit(views_of_sources(v@)),
{
    let n = v.len();
    let ghost vv = views_of_sources(v@);
    let mut count: usize = 0;
    let mut i: usize = 0;
    proof {
        assert(vv.take(0) =~= Seq::<SourceV>::empty());
    }
    while i < n
        invariant
            0 <= i <= n,
            n == v@.len(),
            vv == views_of_sources(v@),
            vv.len() == n,
            count <= i,
            count == count_non_explicit(vv.take(i as int)),
        decreases n - i,
    {
        let is_explicit = matches!(v[i].priority, Some(SourcePriority::Explicit));
        proof {
            assert(vv[i as int].priority == v@[i as int].priority);
        }
        if !is_explicit {
            count += 1;
        }
        i += 1;
        proof {
            assert(vv.take(i as int).drop_last() =~= vv.take(i - 1));
            assert(vv.take(i as int).last() == vv[i - 1]);
        }
    }
    proof {
        assert(vv.take(n as int) =~= vv);
    }
    count
}

fn name_is_pypi(name: &String) -> (r: bool)
    ensures
        r == (text::spec_lower(name@) == "pypi"@),
{
    let cs = text::chars_of(name.as_str());
    let low = text::lower_chars(&cs);
    text::chars_eq_str(&low, "pypi")
}

/// Convert the Poetry source list into uv indexes, ordered the way Poetry
/// consults sources.
pub fn get_indexes(poetry_sources: Option<Vec<Source>>) -> (r: Option<Vec<Index>>)
    ensures
        poetry_sources is None ==> r is None,
        poetry_sources matches Some(v) ==> match spec_get_indexes(views_of_sources(v@)) {
            Some(ivs) => (r matches Some(out) && views_of_indexes(out@) == ivs),
            None => r is None,
        },
{
    let sources = match poetry_sources {
        Some(s) => s,
        None => {
            return None;
        },
    };
    let ghost input_views = views_of_sources(sources@);
    let sorted = sort_sources(sources);
    let ghost sv = views_of_sources(sorted@);
    let non_explicit = count_non_explicit_exec(&sorted);
    if non_explicit == 1 && sorted.len() > 0 {
        let first = &sorted[0];
        proof {
            assert(first@ == sv[0]);
        }
        let defaultish = match first.priority {
            None => true,
            Some(SourcePriority::Primary) => true,
            Some(SourcePriority::Default) => true,
            _ => false,
        };
        if defaultish {
            if name_is_pypi(&first.name) {
                return None;
            }
            let idx = Index {
                name: first.name.clone(),
                url: clone_opt_string(&first.url),
                default: Some(true),
                explicit: None,
            };
            let mut out: Vec<Index> = Vec::new();
            out.push(idx);
            proof {
                assert(views_of_indexes(out@) =~= spec_get_indexes(input_views)->Some_0);
            }
            return Some(out);
        }
    }
    let n = sorted.len();
    let mut out: Vec<Index> = Vec::new();
    let mut i: usize = 0;
    proof {
        assert(views_of_indexes(out@) =~= sv.take(0).map_values(
            |s: SourceV| spec_index_of_source(s),
        ));
    }
    while i < n
        invariant
            0 <= i <= n,
            n == sorted@.len(),
            sv == views_of_sources(sorted@),
            sv.len() == n,
            views_of_indexes(out@) == sv.take(i as int).map_values(
                |s: SourceV| spec_index_of_source(s),
            ),
        decreases n - i,
    {
        let src = &sorted[i];
        proof {
            assert(src@ == sv[i as int]);
        }
        let url: Option<String> = if name_is_pypi(&src.name) {
            let mut u: Vec<char> = Vec::new();
            text::append_str(&mut u, "https://pypi.org/simple/");
            Some(text::string_from_chars(&u))
        } else {
            clone_opt_string(&src.url)
        };
        let explicit: Option<bool> = if matches!(src.priority, Some(SourcePriority::Explicit)) {
            Some(true)
        } else {
            None
        };
        let idx = Index { name: src.name.clone(), url, default: None, explicit };
        proof {
            assert(idx@.url == spec_index_of_source(sv[i as int]).url);
            assert(idx@ == spec_index_of_source(sv[i as int]));
        }
        let ghost old_out = views_of_indexes(out@);
        out.push(idx);
        i += 1;
        proof {
            assert(views_of_indexes(out@) =~= old_out.push(spec_index_of_source(sv[i - 1])));
            assert(views_of_indexes(out@) =~= sv.take(i as int).map_values(
                |s: SourceV| spec_index_of_source(s),
            ));
        }
    }
    proof {
        assert(sv.take(n as int) =~= sv);
    }
    Some(out)
}

} // verus!
