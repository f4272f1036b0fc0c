//! Translation of Poetry packaging rules into the hatch build model.
//!
//! Hatch keys inclusion by per-distribution pattern lists and can rewrite
//! static directories; a rewrite requested on a glob is keyed by the longest
//! non-glob prefix of each side, and a rewrite requested on a lone existing
//! file has no faithful form and is rejected.

use crate::converters::poetry::build_backend::{
    includes_selector, includes_selector_exec, packages_selector, packages_selector_exec,
};
use crate::fsmodel::{oracle_is_file, spec_join_path, FsOracle};
use crate::schema::hatch::{Build, BuildTarget, Hatch};
use crate::schema::poetry::{Include, Package};
use crate::strmap::{
    deep_pairs, lemma_deep_pairs_insert, map_wf, spec_insert, StrMap,
};
use crate::text;
use crate::text::{spec_contains_char, spec_join, spec_split};
use crate::utils::{clone_vec_string, str_views};
use vstd::prelude::*;

verus! {

broadcast use vstd::string::group_string_axioms;

/// The longest run of leading path parts that hold no glob.
pub open spec fn glob_prefix(parts: Seq<Seq<char>>) -> Seq<Seq<char>>
    decreases parts.len(),
{
    if parts.len() == 0 {
        Seq::empty()
    } else if spec_contains_char(parts[0], '*') {
        Seq::empty()
    } else {
        seq![parts[0]] + glob_prefix(parts.drop_first())
    }
}

/// The longest path prefix of `s` before a glob appears, if any part of it is
/// glob-free.
pub open spec fn spec_extract_parent(s: Seq<char>) -> Option<Seq<char>> {
    let pp = glob_prefix(spec_split(s, '/'));
    if pp.len() == 0 {
        None
    } else {
        Some(spec_join(pp, '/'))
    }
}

/// Extract the longest path part from a path until a glob is found.
pub fn extract_parent_path_from_glob(s: &Vec<char>) -> (r: Option<Vec<char>>)
    ensures
        match r {
            Some(p) => spec_extract_parent(s@) == Some(p@),
            None => spec_extract_parent(s@) is None,
        },
{
    let parts = text::split_char(s, '/');
    let ghost pv = parts.deep_view();
    let n = parts.len();
    let mut kept: Vec<Vec<char>> = Vec::new();
    let mut i: usize = 0;
    proof {
        assert(pv.skip(0) =~= pv);
        assert(kept.deep_view() + glob_prefix(pv) =~= glob_prefix(pv));
    }
    loop
        invariant
            0 <= i <= n,
            n == parts@.len(),
            pv == parts.deep_view(),
            pv.len() == n,
            glob_prefix(pv) == kept.deep_view() + glob_prefix(pv.skip(i as int)),
        ensures
            kept.deep_view() == glob_prefix(pv),
        decreases n - i,
    {
        if i < n {
            proof {
                assert(pv.skip(i as int)[0] == pv[i as int]);
                assert(pv.skip(i as int).drop_first() =~= pv.skip(i + 1));
            }
            let part = &parts[i];
            proof {
                text::lemma_chars_deep_view(part);
            }
            if text::contains_char(part, '*') {
                proof {
                    assert(glob_prefix(pv.skip(i as int)) =~= Seq::<Seq<char>>::empty());
                    assert(kept.deep_view() =~= kept.deep_view() + Seq::<Seq<char>>::empty());
                }
                break;
            }
            let mut copy: Vec<char> = Vec::new();
            text::append_chars(&mut copy, part);
            proof {
                text::lemma_chars_deep_view(&copy);
            }
            let ghost old_kept = kept.deep_view();
            kept.push(copy);
            i += 1;
            proof {
                assert(kept.deep_view() =~= old_kept.push(pv[i - 1]));
                assert(old_kept.push(pv[i - 1]) + glob_prefix(pv.skip(i as int)) =~= old_kept + (
                seq![pv[i - 1]] + glob_prefix(pv.skip(i as int))));
            }
        } else {
            proof {
                assert(pv.skip(n as int) =~= Seq::<Seq<char>>::empty());
                assert(glob_prefix(pv.skip(n as int)) =~= Seq::<Seq<char>>::empty());
                assert(kept.deep_view() =~= kept.deep_view() + Seq::<Seq<char>>::empty());
            }
            break;
        }
    }
    if kept.len() == 0 {
        proof {
            assert(kept.deep_view().len() == 0);
        }
        None
    } else {
        proof {
            assert(kept.deep_view().len() > 0);
        }
        Some(text::join_chars(&kept, '/'))
    }
}

pub open spec fn msg_hatch_file_rewrite(pattern: Seq<char>) -> Seq<char> {
    "\""@ + pattern
        + "\" from \"poetry.packages.include\" cannot be converted to Hatch, as it uses \"from\" on a file, which cannot be expressed with Hatch."@
}

/// The wheel path rewrite one package rule asks for: a glob is keyed by the
/// longest non-glob prefix of each side; a rewrite of a lone existing file is
/// rejected; a bare source directory maps the prefixed pattern back to itself.
pub open spec fn spec_hatch_source(
    pattern: Seq<char>,
    iwf: Seq<char>,
    to: Option<Seq<char>>,
    from_present: bool,
    oracle: FsOracle,
) -> Result<Option<(Seq<char>, Seq<char>)>, Seq<char>> {
    if from_present && !spec_contains_char(pattern, '*') && oracle_is_file(oracle, iwf) {
        Err(msg_hatch_file_rewrite(pattern))
    } else {
        match to {
            Some(t) => {
                if spec_contains_char(pattern, '*') {
                    match (spec_extract_parent(iwf), spec_extract_parent(pattern)) {
                        (Some(fw), Some(tw)) => Ok(Some((fw, spec_join_path(t, tw)))),
                        _ => Ok(None),
                    }
                } else {
                    Ok(Some((iwf, spec_join_path(t, pattern))))
                }
            },
            None => {
                if from_present {
                    Ok(Some((iwf, pattern)))
                } else {
                    Ok(None)
                }
            },
        }
    }
}

/// Get the hatch wheel rewrite of one rule, if any.
fn get_source(
    pattern: &Vec<char>,
    iwf: &Vec<char>,
    to: &Option<String>,
    from_present: bool,
    oracle: &FsOracle,
) -> (r: Result<Option<(Vec<char>, Vec<char>)>, Vec<char>>)
    ensures
        match r {
            Ok(Some(p)) => spec_hatch_source(pattern@, iwf@, to.deep_view(), from_present, *oracle)
                == Ok::<_, Seq<char>>(Some((p.0@, p.1@))),
            Ok(None) => spec_hatch_source(pattern@, iwf@, to.deep_view(), from_present, *oracle)
                == Ok::<Option<(Seq<char>, Seq<char>)>, Seq<char>>(None),
            Err(m) => spec_hatch_source(pattern@, iwf@, to.deep_view(), from_present, *oracle)
                == Err::<Option<(Seq<char>, Seq<char>)>, _>(m@),
        },
{
    let has_glob = text::contains_char(pattern, '*');
    if from_present && !has_glob && oracle.is_file(iwf) {
        let mut msg: Vec<char> = Vec::new();
        text::append_str(&mut msg, "\"");
        text::append_chars(&mut msg, pattern);
        text::append_str(
            &mut msg,
            "\" from \"poetry.packages.include\" cannot be converted to Hatch, as it uses \"from\" on a file, which cannot be expressed with Hatch.",
        );
        proof {
            assert(msg@ =~= msg_hatch_file_rewrite(pattern@));
        }
        return Err(msg);
    }
    match to {
        Some(t) => {
            let tc = text::chars_of(t.as_str());
            if has_glob {
                match extract_parent_path_from_glob(iwf) {
                    Some(fw) => match extract_parent_path_from_glob(pattern) {
                        Some(tw) => Ok(Some((fw, crate::fsmodel::join_path(&tc, &tw)))),
                        None => Ok(None),
                    },
                    None => Ok(None),
                }
            } else {
                let mut iwf_copy: Vec<char> = Vec::new();
                text::append_chars(&mut iwf_copy, iwf);
                proof {
                    assert(iwf_copy@ =~= iwf@);
                }
                Ok(Some((iwf_copy, crate::fsmodel::join_path(&tc, pattern))))
            }
        },
        None => {
            if from_present {
                let mut iwf_copy: Vec<char> = Vec::new();
                text::append_chars(&mut iwf_copy, iwf);
                let mut pat_copy: Vec<char> = Vec::new();
                text::append_chars(&mut pat_copy, pattern);
                proof {
                    assert(iwf_copy@ =~= iwf@);
                    assert(pat_copy@ =~= pattern@);
                }
                Ok(Some((iwf_copy, pat_copy)))
            } else {
                Ok(None)
            }
        },
    }
}

/// What the hatch translation of the package rules has produced so far.
pub struct HatchFold {
    pub sdist_include: Seq<Seq<char>>,
    pub wheel_include: Seq<Seq<char>>,
    pub wheel_sources: Seq<(Seq<char>, Seq<char>)>,
    pub errors: Seq<Seq<char>>,
}

/// The pattern of a rule prefixed with its source directory.
pub open spec fn spec_iwf(p: Package) -> Seq<char> {
    match p.from {
        Some(f) => spec_join_path(f@, p.pattern@),
        None => p.pattern@,
    }
}

/// One package rule folded into the hatch model.
pub open spec fn spec_hatch_step(prev: HatchFold, p: Package, oracle: FsOracle) -> HatchFold {
    let iwf = spec_iwf(p);
    let sel = packages_selector(p.format);
    let f1 = if sel.0 {
        HatchFold { sdist_include: prev.sdist_include.push(iwf), ..prev }
    } else {
        prev
    };
    if sel.1 {
        let f2 = HatchFold { wheel_include: f1.wheel_include.push(iwf), ..f1 };
        match spec_hatch_source(p.pattern@, iwf, p.to.deep_view(), p.from is Some, oracle) {
            Err(m) => HatchFold { errors: f2.errors.push(m), ..f2 },
            Ok(Some(s)) => HatchFold {
                wheel_sources: spec_insert(f2.wheel_sources, s.0, s.1),
                ..f2
            },
            Ok(None) => f2,
        }
    } else {
        f1
    }
}

pub open spec fn spec_hatch_packages(pkgs: Seq<Package>, oracle: FsOracle) -> HatchFold
    decreases pkgs.len(),
{
    if pkgs.len() == 0 {
        HatchFold {
            sdist_include: Seq::empty(),
            wheel_include: Seq::empty(),
            wheel_sources: Seq::empty(),
            errors: Seq::empty(),
        }
    } else {
        spec_hatch_step(spec_hatch_packages(pkgs.drop_last(), oracle), pkgs.last(), oracle)
    }
}

/// The force-include maps collected from the plain inclusion rules: each
/// selected distribution maps the path to itself.
pub open spec fn spec_hatch_includes(incs: Seq<Include>) -> (
    Seq<(Seq<char>, Seq<char>)>,
    Seq<(Seq<char>, Seq<char>)>,
)
    decreases incs.len(),
{
    if incs.len() == 0 {
        (Seq::empty(), Seq::empty())
    } else {
        let prev = spec_hatch_includes(incs.drop_last());
        let (path, fmt) = match incs.last() {
            Include::Plain(p) => (p@, None),
            Include::Selected { path, format } => (path@, format),
        };
        let sel = includes_selector(fmt);
        let s1 = if sel.0 {
            spec_insert(prev.0, path, path)
        } else {
            prev.0
        };
        let w1 = if sel.1 {
            spec_insert(prev.1, path, path)
        } else {
            prev.1
        };
        (s1, w1)
    }
}

/// Whether a build target description carries anything.
pub open spec fn target_any(
    inc: Seq<Seq<char>>,
    force: Seq<(Seq<char>, Seq<char>)>,
    excl: Option<Vec<String>>,
    srcs: Seq<(Seq<char>, Seq<char>)>,
) -> bool {
    inc.len() > 0 || force.len() > 0 || excl is Some || srcs.len() > 0
}

/// Whether an assembled build target holds exactly the given content.
pub open spec fn target_matches(
    t: BuildTarget,
    inc: Seq<Seq<char>>,
    force: Seq<(Seq<char>, Seq<char>)>,
    excl: Option<Vec<String>>,
    srcs: Seq<(Seq<char>, Seq<char>)>,
) -> bool {
    &&& (inc.len() == 0 ==> t.includes is None)
    &&& (inc.len() > 0 ==> (t.includes matches Some(v) && str_views(v@) == inc))
    &&& (force.len() == 0 ==> t.force_include is None)
    &&& (force.len() > 0 ==> (t.force_include matches Some(m) && deep_pairs(m@) == force))
    &&& (t.exclude.deep_view() == excl.deep_view())
    &&& (srcs.len() == 0 ==> t.sources is None)
    &&& (srcs.len() > 0 ==> (t.sources matches Some(m) && deep_pairs(m@) == srcs))
}

/// Which of the two targets carry content.
pub open spec fn spec_hatch_any(
    pf: HatchFold,
    fi: (Seq<(Seq<char>, Seq<char>)>, Seq<(Seq<char>, Seq<char>)>),
    excl: Option<Vec<String>>,
) -> (bool, bool) {
    (
        target_any(pf.sdist_include, fi.0, excl, Seq::empty()),
        target_any(pf.wheel_include, fi.1, excl, pf.wheel_sources),
    )
}

/// Whether assembled hatch metadata holds exactly the translated content.
pub open spec fn spec_hatch_value(
    h: Hatch,
    pf: HatchFold,
    fi: (Seq<(Seq<char>, Seq<char>)>, Seq<(Seq<char>, Seq<char>)>),
    excl: Option<Vec<String>>,
) -> bool {
    let any = spec_hatch_any(pf, fi, excl);
    h.build matches Some(b) && (b.targets matches Some(tm) && (map_wf(tm@) && {
        let n_targets: int = (if any.0 {
            1int
        } else {
            0int
        }) + (if any.1 {
            1int
        } else {
            0int
        });
        &&& tm@.len() == n_targets
        &&& (any.0 ==> tm@[0].0 == "sdist"@ && target_matches(
            tm@[0].1,
            pf.sdist_include,
            fi.0,
            excl,
            Seq::empty(),
        ))
        &&& (any.1 ==> tm@[n_targets - 1].0 == "wheel"@ && target_matches(
            tm@[n_targets - 1].1,
            pf.wheel_include,
            fi.1,
            excl,
            pf.wheel_sources,
        ))
    }))
}

/// Construct hatch build metadata from the Poetry package rules, plain
/// inclusion rules, and exclusion patterns. The rules' patterns land in the
/// selected distributions' include lists, plain inclusions become
/// force-include entries, exclusions pass through to both targets, and wheel
/// rewrites are keyed as `spec_hatch_source` says. A target with no content is
/// omitted; with neither target the result is empty; any rejected rewrite
/// makes the whole translation fail with every collected complaint.
pub fn get_build_backend(
    packages: Option<&Vec<Package>>,
    includes: Option<&Vec<Include>>,
    exclude: Option<&Vec<String>>,
    oracle: &FsOracle,
) -> (r: Result<Option<Hatch>, Vec<String>>)
    ensures
        ({
            let pf = match packages {
                Some(ps) => spec_hatch_packages(ps@, *oracle),
                None => spec_hatch_packages(Seq::empty(), *oracle),
            };
            let fi = match includes {
                Some(is_) => spec_hatch_includes(is_@),
                None => spec_hatch_includes(Seq::empty()),
            };
            let excl: Option<Vec<String>> = match exclude {
                Some(e) => Some(*e),
                None => None,
            };
            let any = spec_hatch_any(pf, fi, excl);
            &&& (pf.errors.len() > 0 ==> (r matches Err(es) && str_views(es@) == pf.errors))
            &&& (pf.errors.len() == 0 && !any.0 && !any.1 ==> r matches Ok(None))
            &&& (pf.errors.len() == 0 && (any.0 || any.1) ==> (r matches Ok(Some(h))
                && spec_hatch_value(h, pf, fi, excl)))
        }),
{
    let mut sdist_include: Vec<String> = Vec::new();
    let mut wheel_include: Vec<String> = Vec::new();
    let mut wheel_sources: StrMap<String> = StrMap::new();
    let mut errors: Vec<String> = Vec::new();
    proof {
        assert(deep_pairs(wheel_sources@) =~= Seq::<(Seq<char>, Seq<char>)>::empty());
    }
    if let Some(pkgs) = packages {
        let n = pkgs.len();
        let mut i: usize = 0;
        proof {
            assert(pkgs@.take(0) =~= Seq::<Package>::empty());
        }
        while i < n
            invariant
                0 <= i <= n,
                n == pkgs@.len(),
                map_wf(wheel_sources@),
                ({
                    let pf = spec_hatch_packages(pkgs@.take(i as int), *oracle);
                    &&& str_views(sdist_include@) == pf.sdist_include
                    &&& str_views(wheel_include@) == pf.wheel_include
                    &&& deep_pairs(wheel_sources@) == pf.wheel_sources
                    &&& str_views(errors@) == pf.errors
                }),
            decreases n - i,
        {
            proof {
                assert(pkgs@.take(i + 1).drop_last() =~= pkgs@.take(i as int));
                assert(pkgs@.take(i + 1).last() == pkgs@[i as int]);
            }
            let p = &pkgs[i];
            let pattern = text::chars_of(p.pattern.as_str());
            let iwf: Vec<char> = match &p.from {
                Some(f) => crate::fsmodel::join_path(&text::chars_of(f.as_str()), &pattern),
                None => {
                    let mut c: Vec<char> = Vec::new();
                    text::append_chars(&mut c, &pattern);
                    proof {
                        assert(c@ =~= pattern@);
                    }
                    c
                },
            };
            proof {
                assert(iwf@ == spec_iwf(pkgs@[i as int]));
            }
            let sel = packages_selector_exec(&p.format);
            if sel.0 {
                let ghost old_views = str_views(sdist_include@);
                sdist_include.push(text::string_from_chars(&iwf));
                proof {
                    assert(str_views(sdist_include@) =~= old_views.push(iwf@));
                }
            }
            if sel.1 {
                let ghost old_views = str_views(wheel_include@);
                wheel_include.push(text::string_from_chars(&iwf));
                proof {
                    assert(str_views(wheel_include@) =~= old_views.push(iwf@));
                }
                match get_source(&pattern, &iwf, &p.to, p.from.is_some(), oracle) {
                    Err(m) => {
                        let ghost old_errs = str_views(errors@);
                        errors.push(text::string_from_chars(&m));
                        proof {
                            assert(str_views(errors@) =~= old_errs.push(m@));
                        }
                    },
                    Ok(Some(pair)) => {
                        let key = text::string_from_chars(&pair.0);
                        let val = text::string_from_chars(&pair.1);
                        proof {
                            lemma_deep_pairs_insert(wheel_sources@, key@, val);
                        }
                        wheel_sources.insert(key, val);
                    },
                    Ok(None) => {},
                }
            }
            i += 1;
        }
        proof {
            assert(pkgs@.take(n as int) =~= pkgs@);
        }
    }
    let mut sdist_force: StrMap<String> = StrMap::new();
    let mut wheel_force: StrMap<String> = StrMap::new();
    proof {
        assert(deep_pairs(sdist_force@) =~= Seq::<(Seq<char>, Seq<char>)>::empty());
        assert(deep_pairs(wheel_force@) =~= Seq::<(Seq<char>, Seq<char>)>::empty());
    }
    if let Some(incs) = includes {
        let n = incs.len();
        let mut i: usize = 0;
        proof {
            assert(incs@.take(0) =~= Seq::<Include>::empty());
        }
        while i < n
            invariant
                0 <= i <= n,
                n == incs@.len(),
                map_wf(sdist_force@),
                map_wf(wheel_force@),
                ({
                    let fi = spec_hatch_includes(incs@.take(i as int));
                    &&& deep_pairs(sdist_force@) == fi.0
                    &&& deep_pairs(wheel_force@) == fi.1
                }),
            decreases n - i,
        {
            proof {
                assert(incs@.take(i + 1).drop_last() =~= incs@.take(i as int));
                assert(incs@.take(i + 1).last() == incs@[i as int]);
            }
            let none_fmt: Option<crate::schema::utils::SingleOrVec<
                crate::schema::poetry::Format,
            >> = None;
            let (path, fmt): (&String, &Option<crate::schema::utils::SingleOrVec<
                crate::schema::poetry::Format,
            >>) = match &incs[i] {
                Include::Plain(p) => (p, &none_fmt),
                Include::Selected { path, format } => (path, format),
            };
            let sel = includes_selector_exec(fmt);
            proof {
                assert(sel == includes_selector(
                    match incs@[i as int] {
                        Include::Plain(_) => None,
                        Include::Selected { format, .. } => format,
                    },
                ));
            }
            if sel.0 {
                let path_key = path.clone();
                let path_val = path.clone();
                proof {
                    lemma_deep_pairs_insert(sdist_force@, path_key@, path_val);
                }
                sdist_force.insert(path_key, path_val);
            }
            if sel.1 {
                let path_key = path.clone();
                let path_val = path.clone();
                proof {
                    lemma_deep_pairs_insert(wheel_force@, path_key@, path_val);
                }
                wheel_force.insert(path_key, path_val);
            }
            i += 1;
        }
        proof {
            assert(incs@.take(n as int) =~= incs@);
        }
    }
    if errors.len() > 0 {
        proof {
            assert(str_views(errors@).len() == errors@.len());
        }
        return Err(errors);
    }
    let mut targets: StrMap<BuildTarget> = StrMap::new();
    proof {
        reveal_strlit("sdist");
        reveal_strlit("wheel");
        assert("sdist"@[0] == 's' && "wheel"@[0] == 'w');
        assert("sdist"@ != "wheel"@);
    }
    let sdist_any = sdist_include.len() > 0 || sdist_force.len() > 0 || exclude.is_some();
    let wheel_any = wheel_include.len() > 0 || wheel_force.len() > 0 || exclude.is_some()
        || wheel_sources.len() > 0;
    proof {
        assert(str_views(sdist_include@).len() == sdist_include@.len());
        assert(str_views(wheel_include@).len() == wheel_include@.len());
        assert(deep_pairs(sdist_force@).len() == sdist_force@.len());
        assert(deep_pairs(wheel_force@).len() == wheel_force@.len());
        assert(deep_pairs(wheel_sources@).len() == wheel_sources@.len());
    }
    if sdist_any {
        let t = BuildTarget {
            includes: crate::utils::non_empty_vec(sdist_include),
            force_include: crate::utils::non_empty_index_map(sdist_force),
            exclude: match exclude {
                Some(e) => Some(clone_vec_string(e)),
                None => None,
            },
            sources: None,
        };
        targets.insert(text::string_from_chars(&text::chars_of("sdist")), t);
    }
    if wheel_any {
        let t = BuildTarget {
            includes: crate::utils::non_empty_vec(wheel_include),
            force_include: crate::utils::non_empty_index_map(wheel_force),
            exclude: match exclude {
                Some(e) => Some(clone_vec_string(e)),
                None => None,
            },
            sources: crate::utils::non_empty_index_map(wheel_sources),
        };
        targets.insert(text::string_from_chars(&text::chars_of("wheel")), t);
    }
    if targets.is_empty() {
        return Ok(None);
    }
    Ok(Some(Hatch { build: Some(Build { targets: Some(targets) }) }))
}

} // verus!
