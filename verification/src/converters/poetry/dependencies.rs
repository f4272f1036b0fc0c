//! Resolution of Poetry dependency declarations into PEP 508 strings, pinned
//! sources, and dependency groups.

use crate::converters::poetry::sources::{get_source_index, spec_source_index};
use crate::converters::poetry::version::{
    error_matches, lemma_translate_done_ok, spec_named_message, spec_python_marker, spec_translate,
    ParsePep440Error, PoetryPep440, TranslateResult,
};
use crate::converters::DependencyGroupsStrategy;
use crate::errors::MigrationErrors;
use crate::schema::poetry::{DependencySpecification, PoetryGroup};
use crate::schema::pyproject::{DependencyGroupSpecification, DependencyGroupSpecificationV};
use crate::schema::utils::SingleOrVec;
use crate::schema::uv::{SourceContainer, SourceContainerV, SourceIndex, SourceIndexV};
use crate::strmap::{
    deep_pairs, lemma_deep_pairs_insert, map_has_key, map_key_idx, map_wf, spec_entry_extend,
    spec_insert, StrMap,
};
use crate::text;
use crate::utils::str_views;
use vstd::prelude::*;

verus! {

/// The bracketed extras list of a dependency, or nothing.
pub open spec fn spec_extras_part(extras: Option<Vec<String>>) -> Seq<char> {
    match extras {
        Some(ex) => seq!['['] + text::spec_join(str_views(ex@), ',') + seq![']'],
        None => Seq::empty(),
    }
}

/// The combined environment marker of a detailed declaration: the python
/// constraint as a marker, the platform as a `sys_platform` test, and the raw
/// marker text, joined with `and`. A python constraint that cannot be
/// translated is the error.
pub open spec fn spec_get_marker(d: DependencySpecification) -> Result<
    Option<Seq<char>>,
    TranslateResult,
> {
    match d {
        DependencySpecification::Detail { python, platform, markers, .. } => {
            let pyres: Result<Option<Seq<char>>, TranslateResult> = match python {
                Some(py) => match spec_translate(py@) {
                    TranslateResult::Done(t) => Ok(Some(spec_python_marker(t))),
                    e => Err(e),
                },
                None => Ok(None),
            };
            match pyres {
                Err(e) => Err(e),
                Ok(pm) => {
                    let p1: Seq<Seq<char>> = match pm {
                        Some(x) => seq![x],
                        None => Seq::empty(),
                    };
                    let p2 = match platform {
                        Some(p) => p1.push("sys_platform == '"@ + p@ + "'"@),
                        None => p1,
                    };
                    let p3 = match markers {
                        Some(m) => p2.push(m@),
                        None => p2,
                    };
                    Ok(
                        if p3.len() == 0 {
                            None
                        } else {
                            Some(text::spec_join_str(p3, " and "@))
                        },
                    )
                },
            }
        },
        _ => Ok(None),
    }
}

/// The PEP 508 text of one declaration, without its name: the extras, the
/// translated constraint, and the marker, in that order.
pub open spec fn spec_to_pep508(d: DependencySpecification) -> Result<Seq<char>, TranslateResult> {
    match d {
        DependencySpecification::Text(s) => match spec_translate(s@) {
            TranslateResult::Done(t) => Ok(t),
            e => Err(e),
        },
        DependencySpecification::Detail { version, extras, .. } => {
            let epart = spec_extras_part(extras);
            let vres: Result<Seq<char>, TranslateResult> = match version {
                Some(v) => match spec_translate(v@) {
                    TranslateResult::Done(t) => Ok(t),
                    e => Err(e),
                },
                None => Ok(Seq::empty()),
            };
            match vres {
                Err(e) => Err(e),
                Ok(vt) => match spec_get_marker(d) {
                    Err(e) => Err(e),
                    Ok(None) => Ok(epart + vt),
                    Ok(Some(m)) => Ok(epart + vt + " ; "@ + m),
                },
            }
        },
        DependencySpecification::Multi(_) => Ok(Seq::empty()),
    }
}

impl DependencySpecification {
    /// The combined environment marker of the declaration.
    pub fn get_marker(&self) -> (r: Result<Option<String>, ParsePep440Error>)
        ensures
            match spec_get_marker(*self) {
                Ok(m) => (r matches Ok(x) && x.deep_view() == m),
                Err(e) => (r matches Err(pe) && error_matches(e, pe)),
            },
    {
        match self {
            DependencySpecification::Detail { python, platform, markers, .. } => {
                let pm: Option<String> = match python {
                    Some(py) => match PoetryPep440::from_str(py.as_str()) {
                        Ok(p) => {
                            proof {
                                let t = choose|t: Seq<char>|
                                    spec_translate(py@) == TranslateResult::Done(t);
                                lemma_translate_done_ok(py@, t);
                            }
                            Some(p.to_python_marker())
                        },
                        Err(e) => {
                            return Err(e);
                        },
                    },
                    None => None,
                };
                let mut parts: Vec<Vec<char>> = Vec::new();
                let ghost p1: Seq<Seq<char>> = match pm {
                    Some(ref x) => seq![x@],
                    None => Seq::empty(),
                };
                if let Some(x) = pm {
                    let cs = text::chars_of(x.as_str());
                    proof {
                        text::lemma_chars_deep_view(&cs);
                    }
                    parts.push(cs);
                }
                proof {
                    assert(parts.deep_view() =~= p1);
                }
                let ghost p2: Seq<Seq<char>> = match platform {
                    Some(ref p) => p1.push("sys_platform == '"@ + p@ + "'"@),
                    None => p1,
                };
                if let Some(p) = platform {
                    let mut t: Vec<char> = Vec::new();
                    text::append_str(&mut t, "sys_platform == '");
                    text::append_str(&mut t, p.as_str());
                    text::append_str(&mut t, "'");
                    proof {
                        text::lemma_chars_deep_view(&t);
                    }
                    parts.push(t);
                }
                proof {
                    assert(parts.deep_view() =~= p2);
                }
                let ghost p3: Seq<Seq<char>> = match markers {
                    Some(ref m) => p2.push(m@),
                    None => p2,
                };
                if let Some(m) = markers {
                    let cs = text::chars_of(m.as_str());
                    proof {
                        text::lemma_chars_deep_view(&cs);
                    }
                    parts.push(cs);
                }
                proof {
                    assert(parts.deep_view() =~= p3);
                }
                if parts.len() == 0 {
                    Ok(None)
                } else {
                    let joined = text::join_chars_str(&parts, " and ");
                    Ok(Some(text::string_from_chars(&joined)))
                }
            },
            _ => Ok(None),
        }
    }

    /// The declaration as the PEP 508 text that follows the dependency name.
    pub fn to_pep_508(&self) -> (r: Result<String, ParsePep440Error>)
        ensures
            match spec_to_pep508(*self) {
                Ok(t) => (r matches Ok(x) && x@ == t),
                Err(e) => (r matches Err(pe) && error_matches(e, pe)),
            },
    {
        match self {
            DependencySpecification::Text(s) => match PoetryPep440::from_str(s.as_str()) {
                Ok(p) => Ok(p.to_string()),
                Err(e) => Err(e),
            },
            DependencySpecification::Detail { version, extras, .. } => {
                let mut out: Vec<char> = Vec::new();
                if let Some(ex) = extras {
                    let n = ex.len();
                    let mut parts: Vec<Vec<char>> = Vec::new();
                    let mut i: usize = 0;
                    proof {
                        assert(parts.deep_view() =~= str_views(ex@).take(0));
                    }
                    while i < n
                        invariant
                            0 <= i <= n,
                            n == ex@.len(),
                            parts.deep_view() == str_views(ex@).take(i as int),
                        decreases n - i,
                    {
                        let cs = text::chars_of(ex[i].as_str());
                        proof {
                            text::lemma_chars_deep_view(&cs);
                        }
                        let ghost old_parts = parts.deep_view();
                        parts.push(cs);
                        i += 1;
                        proof {
                            assert(parts.deep_view() =~= old_parts.push(str_views(ex@)[i - 1]));
                            assert(parts.deep_view() =~= str_views(ex@).take(i as int));
                        }
                    }
                    proof {
                        assert(str_views(ex@).take(n as int) =~= str_views(ex@));
                    }
                    let joined = text::join_chars(&parts, ',');
                    out.push('[');
                    text::append_chars(&mut out, &joined);
                    out.push(']');
                    proof {
                        assert(out@ =~= spec_extras_part(*extras));
                    }
                }
                proof {
                    assert(out@ == spec_extras_part(*extras));
                }
                if let Some(v) = version {
                    match PoetryPep440::from_str(v.as_str()) {
                        Ok(p) => {
                            let vt = p.to_string();
                            text::append_chars(&mut out, &text::chars_of(vt.as_str()));
                        },
                        Err(e) => {
                            return Err(e);
                        },
                    }
                }
                match self.get_marker() {
                    Err(e) => Err(e),
                    Ok(None) => Ok(text::string_from_chars(&out)),
                    Ok(Some(m)) => {
                        text::append_str(&mut out, " ; ");
                        text::append_chars(&mut out, &text::chars_of(m.as_str()));
                        Ok(text::string_from_chars(&out))
                    },
                }
            },
            DependencySpecification::Multi(_) => Ok(String::new()),
        }
    }
}

/// What the dependency resolver has produced so far: the dependency strings,
/// the pinned sources, and the diagnostics.
pub struct DependencyFold {
    pub deps: Seq<Seq<char>>,
    pub sources: Seq<(Seq<char>, SourceContainerV)>,
    pub errors: Seq<(Seq<char>, bool)>,
}

/// Whether a declaration carries a python, platform or marker qualifier.
pub open spec fn has_qualifier(d: DependencySpecification) -> bool {
    match d {
        DependencySpecification::Detail { python, platform, markers, .. } => python is Some
            || platform is Some || markers is Some,
        _ => false,
    }
}

/// The sources of a multi-variant declaration, with the diagnostics of marker
/// translation: a variant with both a source and a qualifier carries its
/// marker on the source.
pub open spec fn spec_multi_sources(name: Seq<char>, specs: Seq<DependencySpecification>) -> (
    Seq<SourceIndexV>,
    Seq<(Seq<char>, bool)>,
)
    decreases specs.len(),
{
    if specs.len() == 0 {
        (Seq::empty(), Seq::empty())
    } else {
        let prev = spec_multi_sources(name, specs.drop_last());
        let sp = specs.last();
        match spec_source_index(sp) {
            None => prev,
            Some(siv) => {
                if has_qualifier(sp) {
                    match spec_get_marker(sp) {
                        Ok(m) => (prev.0.push(SourceIndexV { marker: m, ..siv }), prev.1),
                        Err(e) => (
                            prev.0.push(siv),
                            prev.1.push((spec_named_message(name, e), false)),
                        ),
                    }
                } else {
                    (prev.0.push(siv), prev.1)
                }
            },
        }
    }
}

/// One plain declaration folded in: a translated constraint joins the
/// dependency list under its name, a failed one joins the diagnostics.
pub open spec fn step_plain(
    prev: DependencyFold,
    name: Seq<char>,
    d: DependencySpecification,
) -> DependencyFold {
    match spec_to_pep508(d) {
        Ok(t) => DependencyFold { deps: prev.deps.push(name + t), ..prev },
        Err(e) => DependencyFold {
            errors: prev.errors.push((spec_named_message(name, e), false)),
            ..prev
        },
    }
}

pub open spec fn fold_plain_all(
    prev: DependencyFold,
    name: Seq<char>,
    specs: Seq<DependencySpecification>,
) -> DependencyFold
    decreases specs.len(),
{
    if specs.len() == 0 {
        prev
    } else {
        step_plain(fold_plain_all(prev, name, specs.drop_last()), name, specs.last())
    }
}

/// One declaration folded in. A plain or detailed declaration contributes a
/// dependency string (and a detailed one its source, keyed by name). A
/// multi-variant declaration with no sources contributes one string per
/// variant; with sources it contributes the bare name and the source list.
pub open spec fn spec_get_step(prev: DependencyFold, name: Seq<char>, d: DependencySpecification) -> DependencyFold {
    match d {
        DependencySpecification::Text(_) => step_plain(prev, name, d),
        DependencySpecification::Detail { .. } => {
            let withsrc = match spec_source_index(d) {
                Some(siv) => DependencyFold {
                    sources: spec_insert(prev.sources, name, SourceContainerV::One(siv)),
                    ..prev
                },
                None => prev,
            };
            step_plain(withsrc, name, d)
        },
        DependencySpecification::Multi(specs) => {
            let (sis, merrs) = spec_multi_sources(name, specs@);
            if sis.len() == 0 {
                fold_plain_all(
                    DependencyFold { errors: prev.errors + merrs, ..prev },
                    name,
                    specs@,
                )
            } else {
                DependencyFold {
                    deps: prev.deps.push(name),
                    sources: spec_insert(prev.sources, name, SourceContainerV::Many(sis)),
                    errors: prev.errors + merrs,
                }
            }
        },
    }
}

/// Every declaration folded in, in order.
pub open spec fn spec_get_fold(
    entries: Seq<(Seq<char>, DependencySpecification)>,
    init_sources: Seq<(Seq<char>, SourceContainerV)>,
    init_errors: Seq<(Seq<char>, bool)>,
) -> DependencyFold
    decreases entries.len(),
{
    if entries.len() == 0 {
        DependencyFold { deps: Seq::empty(), sources: init_sources, errors: init_errors }
    } else {
        spec_get_step(
            spec_get_fold(entries.drop_last(), init_sources, init_errors),
            entries.last().0,
            entries.last().1,
        )
    }
}

/// Push `name` followed by `tail` onto the dependency strings.
fn push_named(deps: &mut Vec<String>, name: &String, tail: &String)
    ensures
        str_views(final(deps)@) == str_views(old(deps)@).push(name@ + tail@),
{
    let mut cs = text::chars_of(name.as_str());
    text::append_chars(&mut cs, &text::chars_of(tail.as_str()));
    let ghost old_views = str_views(deps@);
    deps.push(text::string_from_chars(&cs));
    proof {
        assert(str_views(deps@) =~= old_views.push(name@ + tail@));
    }
}

/// Resolve the main dependency table: each declaration becomes a PEP 508
/// string, sources are pinned under the dependency's name, and failures join
/// the diagnostics.
pub fn get(
    poetry_dependencies: Option<&StrMap<DependencySpecification>>,
    uv_source_index: &mut StrMap<SourceContainer>,
    errors: &mut MigrationErrors,
) -> (r: Option<Vec<String>>)
    requires
        map_wf(old(uv_source_index)@),
    ensures
        map_wf(final(uv_source_index)@),
        match poetry_dependencies {
            None => {
                &&& r is None
                &&& final(uv_source_index)@ == old(uv_source_index)@
                &&& final(errors)@ == old(errors)@
            },
            Some(pd) => ({
                let out = spec_get_fold(pd@, deep_pairs(old(uv_source_index)@), old(errors)@);
                &&& deep_pairs(final(uv_source_index)@) == out.sources
                &&& final(errors)@ == out.errors
                &&& (out.deps.len() == 0 ==> r is None)
                &&& (out.deps.len() > 0 ==> (r matches Some(v) && str_views(v@) == out.deps))
            }),
        },
{
    let pd = match poetry_dependencies {
        Some(pd) => pd,
        None => {
            return None;
        },
    };
    let ghost s0 = deep_pairs(uv_source_index@);
    let ghost e0 = errors@;
    let n = pd.len();
    let mut deps: Vec<String> = Vec::new();
    let mut i: usize = 0;
    proof {
        assert(pd@.take(0) =~= Seq::<(Seq<char>, DependencySpecification)>::empty());
        assert(str_views(deps@) =~= Seq::<Seq<char>>::empty());
    }
    while i < n
        invariant
            0 <= i <= n,
            n == pd@.len(),
            map_wf(uv_source_index@),
            ({
                let out = spec_get_fold(pd@.take(i as int), s0, e0);
                &&& deep_pairs(uv_source_index@) == out.sources
                &&& errors@ == out.errors
                &&& str_views(deps@) == out.deps
            }),
        decreases n - i,
    {
        let ghost prev = spec_get_fold(pd@.take(i as int), s0, e0);
        proof {
            assert(pd@.take(i + 1).drop_last() =~= pd@.take(i as int));
            assert(pd@.take(i + 1).last() == pd@[i as int]);
        }
        let name = pd.key_at(i).clone();
        let d = pd.val_at(i);
        proof {
            assert(name@ == pd@[i as int].0);
            assert(*d == pd@[i as int].1);
        }
        match d {
            DependencySpecification::Text(_) => {
                match d.to_pep_508() {
                    Ok(t) => {
                        push_named(&mut deps, &name, &t);
                    },
                    Err(e) => {
                        errors.add_unrecoverable_error(e.message_for(name.as_str()));
                    },
                }
            },
            DependencySpecification::Detail { .. } => {
                match get_source_index(d) {
                    Some(si) => {
                        let container = SourceContainer::SourceIndex(si);
                        proof {
                            lemma_deep_pairs_insert(uv_source_index@, name@, container);
                        }
                        uv_source_index.insert(name.clone(), container);
                    },
                    None => {},
                }
                match d.to_pep_508() {
                    Ok(t) => {
                        push_named(&mut deps, &name, &t);
                    },
                    Err(e) => {
                        errors.add_unrecoverable_error(e.message_for(name.as_str()));
                    },
                }
            },
            DependencySpecification::Multi(specs) => {
                let m = specs.len();
                let mut sis: Vec<SourceIndex> = Vec::new();
                let mut j: usize = 0;
                let ghost merr0 = errors@;
                proof {
                    assert(specs@.take(0) =~= Seq::<DependencySpecification>::empty());
                    assert(sis@.map_values(|x: SourceIndex| x@) =~= Seq::<SourceIndexV>::empty());
                }
                while j < m
                    invariant
                        0 <= j <= m,
                        m == specs@.len(),
                        ({
                            let (ss, es) = spec_multi_sources(name@, specs@.take(j as int));
                            &&& sis@.map_values(|x: SourceIndex| x@) == ss
                            &&& errors@ == merr0 + es
                        }),
                    decreases m - j,
                {
                    proof {
                        assert(specs@.take(j + 1).drop_last() =~= specs@.take(j as int));
                        assert(specs@.take(j + 1).last() == specs@[j as int]);
                    }
                    let ghost old_sis = sis@.map_values(|x: SourceIndex| x@);
                    let sp = &specs[j];
                    match get_source_index(sp) {
                        Some(mut si) => {
                            let ghost siv = si@;
                            let qualified = match sp {
                                DependencySpecification::Detail {
                                    python,
                                    platform,
                                    markers,
                                    ..
                                } => python.is_some() || platform.is_some() || markers.is_some(),
                                _ => false,
                            };
                            if qualified {
                                match sp.get_marker() {
                                    Ok(mk) => {
                                        si.marker = mk;
                                        proof {
                                            let m0 = spec_get_marker(specs@[j as int])->Ok_0;
                                            assert(si@ == SourceIndexV { marker: m0, ..siv });
                                        }
                                    },
                                    Err(e) => {
                                        errors.add_unrecoverable_error(
                                            e.message_for(name.as_str()),
                                        );
                                    },
                                }
                            }
                            sis.push(si);
                            proof {
                                assert(sis@.map_values(|x: SourceIndex| x@) =~= old_sis.push(
                                    sis@.last()@,
                                ));
                            }
                        },
                        None => {},
                    }
                    j += 1;
                }
                proof {
                    assert(specs@.take(m as int) =~= specs@);
                }
                if sis.len() == 0 {
                    let mut j2: usize = 0;
                    let ghost base = DependencyFold {
                        deps: str_views(deps@),
                        sources: deep_pairs(uv_source_index@),
                        errors: errors@,
                    };
                    proof {
                        assert(specs@.take(0) =~= Seq::<DependencySpecification>::empty());
                    }
                    while j2 < m
                        invariant
                            0 <= j2 <= m,
                            m == specs@.len(),
                            map_wf(uv_source_index@),
                            ({
                                let out = fold_plain_all(base, name@, specs@.take(j2 as int));
                                &&& str_views(deps@) == out.deps
                                &&& errors@ == out.errors
                                &&& deep_pairs(uv_source_index@) == out.sources
                            }),
                        decreases m - j2,
                    {
                        proof {
                            assert(specs@.take(j2 + 1).drop_last() =~= specs@.take(j2 as int));
                            assert(specs@.take(j2 + 1).last() == specs@[j2 as int]);
                        }
                        match specs[j2].to_pep_508() {
                            Ok(t) => {
                                push_named(&mut deps, &name, &t);
                            },
                            Err(e) => {
                                errors.add_unrecoverable_error(e.message_for(name.as_str()));
                            },
                        }
                        j2 += 1;
                    }
                    proof {
                        assert(specs@.take(m as int) =~= specs@);
                    }
                } else {
                    let container = SourceContainer::SourceIndexes(sis);
                    proof {
                        lemma_deep_pairs_insert(uv_source_index@, name@, container);
                    }
                    let ghost old_views = str_views(deps@);
                    uv_source_index.insert(name.clone(), container);
                    deps.push(name);
                    proof {
                        assert(str_views(deps@) =~= old_views.push(pd@[i as int].0));
                    }
                }
            },
        }
        i += 1;
    }
    proof {
        assert(pd@.take(n as int) =~= pd@);
    }
    if deps.len() == 0 {
        proof {
            assert(str_views(deps@).len() == deps@.len());
        }
        return None;
    }
    proof {
        assert(str_views(deps@).len() == deps@.len());
    }
    Some(deps)
}

pub open spec fn spec_missing_extra_message(dep: Seq<char>, extra: Seq<char>) -> Seq<char> {
    "Could not find dependency \""@ + dep + "\" listed in \""@ + extra + "\" extra."@
}

/// The first `n` dependency names mapped from their normal form to their
/// position; a later duplicate normal form wins.
pub open spec fn spec_norm_map(
    entries: Seq<(Seq<char>, DependencySpecification)>,
    n: int,
) -> Seq<(Seq<char>, usize)>
    decreases n,
{
    if n <= 0 {
        Seq::empty()
    } else {
        spec_insert(
            spec_norm_map(entries, n - 1),
            crate::utils::spec_normalize_name(entries[n - 1].0),
            (n - 1) as usize,
        )
    }
}

proof fn lemma_norm_map_bounds(entries: Seq<(Seq<char>, DependencySpecification)>, n: int)
    requires
        0 <= n <= entries.len(),
    ensures
        forall|i: int|
            0 <= i < spec_norm_map(entries, n).len() ==> (#[trigger] spec_norm_map(entries, n)[i]).1
                < n,
        spec_norm_map(entries, n).len() <= n,
    decreases n,
{
    if n > 0 {
        lemma_norm_map_bounds(entries, n - 1);
        let prev = spec_norm_map(entries, n - 1);
        let k = crate::utils::spec_normalize_name(entries[n - 1].0);
        if map_has_key(prev, k) {
            assert(spec_norm_map(entries, n) == prev.update(map_key_idx(prev, k), (
                k,
                (n - 1) as usize,
            )));
        }
    }
}

/// One extra's dependency list resolved: the produced strings, the
/// diagnostics, and which main dependencies were claimed.
pub open spec fn spec_extra_list(
    entries: Seq<(Seq<char>, DependencySpecification)>,
    ename: Seq<char>,
    deps: Seq<Seq<char>>,
) -> (Seq<Seq<char>>, Seq<(Seq<char>, bool)>, Set<Seq<char>>)
    decreases deps.len(),
{
    if deps.len() == 0 {
        (Seq::empty(), Seq::empty(), Set::empty())
    } else {
        let prev = spec_extra_list(entries, ename, deps.drop_last());
        let dep = deps.last();
        let nm = spec_norm_map(entries, entries.len() as int);
        let nk = crate::utils::spec_normalize_name(dep);
        if !map_has_key(nm, nk) {
            (prev.0, prev.1.push((spec_missing_extra_message(dep, ename), true)), prev.2)
        } else {
            let idx = nm[map_key_idx(nm, nk)].1 as int;
            let orig = entries[idx].0;
            match spec_to_pep508(entries[idx].1) {
                Ok(t) => (prev.0.push(orig + t), prev.1, prev.2.insert(orig)),
                Err(e) => (prev.0, prev.1.push((spec_named_message(orig, e), false)), prev.2),
            }
        }
    }
}

/// All extras resolved, in order.
pub open spec fn spec_optional_fold(
    entries: Seq<(Seq<char>, DependencySpecification)>,
    extras: Seq<(Seq<char>, Vec<String>)>,
) -> (Seq<(Seq<char>, Seq<Seq<char>>)>, Seq<(Seq<char>, bool)>, Set<Seq<char>>)
    decreases extras.len(),
{
    if extras.len() == 0 {
        (Seq::empty(), Seq::empty(), Set::empty())
    } else {
        let prev = spec_optional_fold(entries, extras.drop_last());
        let one = spec_extra_list(entries, extras.last().0, str_views(extras.last().1@));
        (spec_insert(prev.0, extras.last().0, one.0), prev.1 + one.1, prev.2.union(one.2))
    }
}

/// The entries whose key was not claimed, in their order.
pub open spec fn keep_entries(
    entries: Seq<(Seq<char>, DependencySpecification)>,
    removed: Set<Seq<char>>,
) -> Seq<(Seq<char>, DependencySpecification)>
    decreases entries.len(),
{
    if entries.len() == 0 {
        Seq::empty()
    } else {
        let prev = keep_entries(entries.drop_last(), removed);
        if removed.contains(entries.last().0) {
            prev
        } else {
            prev.push(entries.last())
        }
    }
}

proof fn lemma_keep_entries_keys(
    entries: Seq<(Seq<char>, DependencySpecification)>,
    removed: Set<Seq<char>>,
)
    ensures
        forall|k: Seq<char>|
            #[trigger] map_has_key(keep_entries(entries, removed), k) ==> map_has_key(entries, k),
        map_wf(entries) ==> map_wf(keep_entries(entries, removed)),
    decreases entries.len(),
{
    if entries.len() > 0 {
        lemma_keep_entries_keys(entries.drop_last(), removed);
        let prev = keep_entries(entries.drop_last(), removed);
        let cur = keep_entries(entries, removed);
        assert forall|k: Seq<char>| #[trigger] map_has_key(cur, k) implies map_has_key(
            entries,
            k,
        ) by {
            let i = map_key_idx(cur, k);
            if i < prev.len() {
                assert(map_has_key(prev, k));
                assert(map_has_key(entries.drop_last(), k));
                let j = map_key_idx(entries.drop_last(), k);
                assert(entries[j].0 == k);
            } else {
                assert(cur[i] == entries.last());
                assert(entries[entries.len() - 1].0 == k);
            }
        }
        if map_wf(entries) {
            assert(map_wf(entries.drop_last()));
            if !removed.contains(entries.last().0) {
                assert forall|a: int, b: int| 0 <= a < b < cur.len() implies cur[a].0
                    != cur[b].0 by {
                    if b == cur.len() - 1 && cur.len() - 1 == prev.len() {
                        assert(cur[b] == entries.last());
                        assert(map_has_key(prev, cur[a].0)) by {
                            assert(prev[a].0 == cur[a].0);
                        }
                        assert(map_has_key(entries.drop_last(), cur[a].0));
                        let j = map_key_idx(entries.drop_last(), cur[a].0);
                        assert(entries[j].0 == cur[a].0);
                        assert(j < entries.len() - 1);
                        assert(entries[j].0 != entries[entries.len() - 1].0);
                    } else {
                        assert(cur[a] == prev[a] && cur[b] == prev[b]);
                    }
                }
            }
        }
    }
}

/// Resolve the extras table into optional-dependency groups: each referenced
/// dependency is looked up by its normal form, rendered as a PEP 508 string,
/// and claimed out of the main dependency table. An unknown reference is a
/// recoverable diagnostic and is dropped; one whose constraint cannot be
/// translated is an unrecoverable diagnostic and is dropped.
pub fn get_optional(
    poetry_dependencies: &mut Option<StrMap<DependencySpecification>>,
    extras: Option<StrMap<Vec<String>>>,
    errors: &mut MigrationErrors,
) -> (r: Option<StrMap<Vec<String>>>)
    requires
        (*old(poetry_dependencies)) matches Some(pd) ==> map_wf(pd@),
    ensures
        extras is None ==> {
            &&& r is None
            &&& *final(poetry_dependencies) == *old(poetry_dependencies)
            &&& final(errors)@ == old(errors)@
        },
        (*old(poetry_dependencies)) is None ==> {
            &&& r is None
            &&& *final(poetry_dependencies) == *old(poetry_dependencies)
            &&& final(errors)@ == old(errors)@
        },
        (*old(poetry_dependencies)) matches Some(pd0) ==> extras matches Some(ex) ==> ({
            let (od, es, rm) = spec_optional_fold(pd0@, ex@);
            &&& final(errors)@ == old(errors)@ + es
            &&& (od.len() == 0 ==> r is None && *final(poetry_dependencies) == *old(
                poetry_dependencies,
            ))
            &&& (od.len() > 0 ==> {
                &&& (r matches Some(m) && map_wf(m@) && deep_pairs(m@) == od)
                &&& ((*final(poetry_dependencies)) matches Some(p2) && map_wf(p2@) && p2@
                    == keep_entries(pd0@, rm))
            })
        }),
{
    let ex = match extras {
        Some(e) => e,
        None => {
            return None;
        },
    };
    let owned = poetry_dependencies.take();
    let pd = match owned {
        Some(p) => p,
        None => {
            return None;
        },
    };
    let ghost pd0 = pd@;
    let ghost e0 = errors@;
    // The normal forms of the main dependency names, mapped to positions.
    let nd = pd.len();
    let mut nm: StrMap<usize> = StrMap::new();
    let mut i: usize = 0;
    while i < nd
        invariant
            0 <= i <= nd,
            nd == pd@.len(),
            pd@ == pd0,
            map_wf(nm@),
            nm@ == spec_norm_map(pd0, i as int),
        decreases nd - i,
    {
        let nk = crate::utils::normalize_dependency_name(pd.key_at(i).as_str());
        nm.insert(nk, i);
        i += 1;
    }
    proof {
        lemma_norm_map_bounds(pd0, nd as int);
    }
    let ghost nm_full = spec_norm_map(pd0, pd0.len() as int);
    let ne = ex.len();
    let mut od: StrMap<Vec<String>> = StrMap::new();
    let mut removal: Vec<String> = Vec::new();
    let mut t: usize = 0;
    proof {
        assert(ex@.take(0) =~= Seq::<(Seq<char>, Vec<String>)>::empty());
        assert(deep_pairs(od@) =~= Seq::<(Seq<char>, Seq<Seq<char>>)>::empty());
    }
    while t < ne
        invariant
            0 <= t <= ne,
            ne == ex@.len(),
            pd@ == pd0,
            nd == pd0.len(),
            map_wf(pd0),
            nm@ == nm_full,
            map_wf(nm@),
            map_wf(od@),
            nm_full == spec_norm_map(pd0, pd0.len() as int),
            forall|i2: int| 0 <= i2 < nm_full.len() ==> (#[trigger] nm_full[i2]).1 < nd,
            ({
                let (odv, es, rm) = spec_optional_fold(pd0, ex@.take(t as int));
                &&& deep_pairs(od@) == odv
                &&& errors@ == e0 + es
                &&& (forall|x: Seq<char>|
                    crate::utils::seq_has_str(str_views(removal@), x) <==> rm.contains(x))
            }),
        decreases ne - t,
    {
        proof {
            assert(ex@.take(t + 1).drop_last() =~= ex@.take(t as int));
            assert(ex@.take(t + 1).last() == ex@[t as int]);
        }
        let ename = ex.key_at(t).clone();
        let dep_list = ex.val_at(t);
        proof {
            assert(ename@ == ex@[t as int].0);
            assert(*dep_list == ex@[t as int].1);
        }
        let m = dep_list.len();
        let mut cur: Vec<String> = Vec::new();
        let mut j: usize = 0;
        let ghost err_base = errors@;
        let ghost rm_base = spec_optional_fold(pd0, ex@.take(t as int)).2;
        proof {
            assert(str_views(dep_list@).take(0) =~= Seq::<Seq<char>>::empty());
            assert(str_views(cur@) =~= Seq::<Seq<char>>::empty());
        }
        while j < m
            invariant
                0 <= j <= m,
                m == dep_list@.len(),
                pd@ == pd0,
                nd == pd0.len(),
                map_wf(pd0),
                nm@ == nm_full,
                map_wf(nm@),
                nm_full == spec_norm_map(pd0, pd0.len() as int),
                forall|i2: int| 0 <= i2 < nm_full.len() ==> (#[trigger] nm_full[i2]).1 < nd,
                ({
                    let one = spec_extra_list(pd0, ename@, str_views(dep_list@).take(j as int));
                    &&& str_views(cur@) == one.0
                    &&& errors@ == err_base + one.1
                    &&& (forall|x: Seq<char>|
                        crate::utils::seq_has_str(str_views(removal@), x) <==> rm_base.union(
                            one.2,
                        ).contains(x))
                }),
            decreases m - j,
        {
            proof {
                assert(str_views(dep_list@).take(j + 1).drop_last() =~= str_views(
                    dep_list@,
                ).take(j as int));
                assert(str_views(dep_list@).take(j + 1).last() == str_views(dep_list@)[j as int]);
            }
            let nk = crate::utils::normalize_dependency_name(dep_list[j].as_str());
            match nm.get(nk.as_str()) {
                None => {
                    let mut msg: Vec<char> = Vec::new();
                    text::append_str(&mut msg, "Could not find dependency \"");
                    text::append_str(&mut msg, dep_list[j].as_str());
                    text::append_str(&mut msg, "\" listed in \"");
                    text::append_str(&mut msg, ename.as_str());
                    text::append_str(&mut msg, "\" extra.");
                    proof {
                        assert(msg@ =~= spec_missing_extra_message(
                            str_views(dep_list@)[j as int],
                            ename@,
                        ));
                    }
                    errors.add_recoverable_error(text::string_from_chars(&msg));
                },
                Some(idx_ref) => {
                    let idx = *idx_ref;
                    proof {
                        assert(nm_full[map_key_idx(nm_full, nk@)].1 < nd);
                    }
                    let orig = pd.key_at(idx);
                    let d = pd.val_at(idx);
                    proof {
                        assert(orig@ == pd0[idx as int].0);
                        assert(*d == pd0[idx as int].1);
                    }
                    match d.to_pep_508() {
                        Ok(tail) => {
                            let orig_name = orig.clone();
                            push_named(&mut cur, &orig_name, &tail);
                            let ghost old_removal = str_views(removal@);
                            removal.push(orig_name);
                            proof {
                                assert(str_views(removal@) =~= old_removal.push(
                                    pd0[idx as int].0,
                                ));
                                assert forall|x: Seq<char>|
                                    crate::utils::seq_has_str(str_views(removal@), x)
                                        <==> rm_base.union(
                                        spec_extra_list(
                                            pd0,
                                            ename@,
                                            str_views(dep_list@).take(j + 1),
                                        ).2,
                                    ).contains(x) by {
                                    if x == pd0[idx as int].0 {
                                        assert(crate::utils::seq_has_str(str_views(removal@), x))
                                            by {
                                            assert(str_views(removal@).last() == x);
                                        }
                                    } else {
                                        assert(crate::utils::seq_has_str(str_views(removal@), x)
                                            == crate::utils::seq_has_str(old_removal, x)) by {
                                            if crate::utils::seq_has_str(str_views(removal@), x) {
                                                let w = choose|w: int|
                                                    0 <= w < str_views(removal@).len()
                                                        && str_views(removal@)[w] == x;
                                                assert(w < old_removal.len());
                                                assert(old_removal[w] == x);
                                            }
                                            if crate::utils::seq_has_str(old_removal, x) {
                                                let w = choose|w: int|
                                                    0 <= w < old_removal.len() && old_removal[w]
                                                        == x;
                                                assert(str_views(removal@)[w] == x);
                                            }
                                        }
                                    }
                                }
                            }
                        },
                        Err(e) => {
                            errors.add_unrecoverable_error(e.message_for(orig.as_str()));
                        },
                    }
                },
            }
            j += 1;
        }
        proof {
            assert(str_views(dep_list@).take(m as int) =~= str_views(dep_list@));
        }
        proof {
            lemma_deep_pairs_insert(od@, ename@, cur);
            assert(cur.deep_view() =~= str_views(cur@));
        }
        od.insert(ename, cur);
        t += 1;
    }
    proof {
        assert(ex@.take(ne as int) =~= ex@);
    }
    if od.is_empty() {
        *poetry_dependencies = Some(pd);
        return None;
    }
    // Drop the claimed dependencies from the main table, keeping order.
    let ghost rm_full = spec_optional_fold(pd0, ex@).2;
    let mut pd = pd;
    let mut kept: Vec<crate::strmap::MapEntry<DependencySpecification>> = Vec::new();
    let ghost kept_map0: Seq<(Seq<char>, DependencySpecification)> = Seq::empty();
    let mut i2: usize = 0;
    proof {
        assert(pd0.take(0) =~= Seq::<(Seq<char>, DependencySpecification)>::empty());
        assert(kept@.map_values(|e: crate::strmap::MapEntry<DependencySpecification>| (e.key@, e.val))
            =~= keep_entries(pd0.take(0), rm_full));
        assert(pd@.skip(0) =~= pd@);
    }
    while i2 < nd
        invariant
            0 <= i2 <= nd,
            nd == pd0.len(),
            pd@ == pd0.skip(i2 as int),
            pd@.len() == nd - i2,
            kept@.map_values(|e: crate::strmap::MapEntry<DependencySpecification>| (e.key@, e.val))
                == keep_entries(pd0.take(i2 as int), rm_full),
            forall|x: Seq<char>|
                crate::utils::seq_has_str(str_views(removal@), x) <==> rm_full.contains(x),
        decreases nd - i2,
    {
        let ghost oe = pd.entries@;
        let ghost om = pd@;
        proof {
            assert(pd.entries@.len() == pd@.len());
        }
        let e = pd.entries.remove(0);
        proof {
            assert(pd.entries@ =~= oe.skip(1));
            assert(e == oe[0]);
            assert forall|w: int| 0 <= w < pd@.len() implies pd@[w] == pd0.skip(i2 + 1)[w] by {
                assert(pd@[w] == (pd.entries@[w].key@, pd.entries@[w].val));
                assert(pd.entries@[w] == oe[w + 1]);
                assert(om[w + 1] == (oe[w + 1].key@, oe[w + 1].val));
                assert(om[w + 1] == pd0.skip(i2 as int)[w + 1]);
            }
            assert(pd@ =~= pd0.skip(i2 + 1));
            assert((e.key@, e.val) == om[0]);
            assert(e.key@ == pd0[i2 as int].0 && e.val == pd0[i2 as int].1);
            assert(pd0.take(i2 + 1).drop_last() =~= pd0.take(i2 as int));
            assert(pd0.take(i2 + 1).last() == pd0[i2 as int]);
        }
        let key_chars = text::chars_of(e.key.as_str());
        let ghost old_kept = kept@.map_values(
            |e2: crate::strmap::MapEntry<DependencySpecification>| (e2.key@, e2.val),
        );
        if !crate::utils::vec_has_string(&removal, &key_chars) {
            kept.push(e);
            proof {
                assert(kept@.map_values(
                    |e2: crate::strmap::MapEntry<DependencySpecification>| (e2.key@, e2.val),
                ) =~= old_kept.push((pd0[i2 as int].0, pd0[i2 as int].1)));
            }
        }
        i2 += 1;
    }
    proof {
        assert(pd0.take(nd as int) =~= pd0);
    }
    let new_pd = StrMap { entries: kept };
    proof {
        lemma_keep_entries_keys(pd0, rm_full);
        assert(new_pd@ == keep_entries(pd0, rm_full));
        let (odv, es, rm) = spec_optional_fold(pd0, ex@);
        assert(odv.len() == deep_pairs(od@).len());
    }
    *poetry_dependencies = Some(new_pd);
    proof {
        assert(deep_pairs(od@).len() > 0) by {
            assert(od@.len() > 0);
        }
    }
    Some(od)
}

/// The exact pins of the locked packages, in order.
pub open spec fn spec_locked_pins(locked: Seq<(String, String)>) -> Seq<Seq<char>> {
    locked.map_values(|p: (String, String)| p.0@ + seq!['=', '='] + p.1@)
}

/// The version constraints a conversion pins so that the converted project
/// locks to the same versions the old lock file held: one exact pin per
/// locked package. Nothing is pinned when locked versions are given up.
pub fn get_constraint_dependencies(
    skip_locked_versions: bool,
    locked_packages: &Vec<(String, String)>,
) -> (r: Option<Vec<String>>)
    ensures
        skip_locked_versions ==> r is None,
        !skip_locked_versions ==> ({
            &&& (locked_packages@.len() == 0 ==> r is None)
            &&& (locked_packages@.len() > 0 ==> (r matches Some(v) && str_views(v@)
                == spec_locked_pins(locked_packages@)))
        }),
{
    if skip_locked_versions {
        return None;
    }
    let n = locked_packages.len();
    if n == 0 {
        return None;
    }
    let mut out: Vec<String> = Vec::new();
    let mut i: usize = 0;
    proof {
        assert(str_views(out@) =~= spec_locked_pins(locked_packages@).take(0));
    }
    while i < n
        invariant
            0 <= i <= n,
            n == locked_packages@.len(),
            str_views(out@) == spec_locked_pins(locked_packages@).take(i as int),
        decreases n - i,
    {
        let entry = &locked_packages[i];
        let mut pin = text::chars_of(entry.0.as_str());
        pin.push('=');
        pin.push('=');
        text::append_chars(&mut pin, &text::chars_of(entry.1.as_str()));
        let ghost old_out = str_views(out@);
        out.push(text::string_from_chars(&pin));
        i += 1;
        proof {
            assert(pin@ =~= locked_packages@[i - 1].0@ + seq!['=', '='] + locked_packages@[i
                - 1].1@);
            assert(str_views(out@) =~= old_out.push(spec_locked_pins(locked_packages@)[i - 1]));
            assert(str_views(out@) =~= spec_locked_pins(locked_packages@).take(i as int));
        }
    }
    proof {
        assert(spec_locked_pins(locked_packages@).take(n as int) =~= spec_locked_pins(
            locked_packages@,
        ));
        assert(str_views(out@).len() == out@.len());
    }
    Some(out)
}

/// What the group resolver has produced so far: the groups at view level, the
/// pinned sources, and the diagnostics.
pub struct GroupsFold {
    pub groups: Seq<(Seq<char>, Seq<DependencyGroupSpecificationV>)>,
    pub sources: Seq<(Seq<char>, SourceContainerV)>,
    pub errors: Seq<(Seq<char>, bool)>,
}

/// Dependency strings as literal group entries.
pub open spec fn dgs_texts(deps: Seq<Seq<char>>) -> Seq<DependencyGroupSpecificationV> {
    deps.map_values(|d: Seq<char>| DependencyGroupSpecificationV::Text(d))
}

/// One Poetry group folded in: its dependencies are resolved like the main
/// table's, and land under the group's own name, or under `dev` when the
/// merge strategy applies to a non-optional group.
pub open spec fn spec_groups_step(
    prev: GroupsFold,
    gname: Seq<char>,
    g: PoetryGroup,
    strategy: DependencyGroupsStrategy,
) -> GroupsFold {
    let out = spec_get_fold(g.dependencies@, prev.sources, prev.errors);
    let target = if strategy == DependencyGroupsStrategy::MergeIntoDev && !(g.optional == Some(
        true,
    )) {
        "dev"@
    } else {
        gname
    };
    GroupsFold {
        groups: spec_entry_extend(prev.groups, target, dgs_texts(out.deps)),
        sources: out.sources,
        errors: out.errors,
    }
}

pub open spec fn spec_groups_fold(
    gm: Seq<(Seq<char>, PoetryGroup)>,
    strategy: DependencyGroupsStrategy,
    init: GroupsFold,
) -> GroupsFold
    decreases gm.len(),
{
    if gm.len() == 0 {
        init
    } else {
        spec_groups_step(
            spec_groups_fold(gm.drop_last(), strategy, init),
            gm.last().0,
            gm.last().1,
            strategy,
        )
    }
}

/// Whether some group is flagged optional.
pub open spec fn spec_any_optional(gm: Seq<(Seq<char>, PoetryGroup)>) -> bool {
    exists|i: int| 0 <= i < gm.len() && gm[i].1.optional == Some(true)
}

/// The names of the optional groups.
pub open spec fn spec_optional_names(gm: Seq<(Seq<char>, PoetryGroup)>) -> Set<Seq<char>>
    decreases gm.len(),
{
    if gm.len() == 0 {
        Set::empty()
    } else {
        let prev = spec_optional_names(gm.drop_last());
        if gm.last().1.optional == Some(true) {
            prev.insert(gm.last().0)
        } else {
            prev
        }
    }
}

/// The group keys that are not optional, in order.
pub open spec fn spec_default_names(
    groups: Seq<(Seq<char>, Seq<DependencyGroupSpecificationV>)>,
    optional: Set<Seq<char>>,
) -> Seq<Seq<char>>
    decreases groups.len(),
{
    if groups.len() == 0 {
        Seq::empty()
    } else {
        let prev = spec_default_names(groups.drop_last(), optional);
        if optional.contains(groups.last().0) {
            prev
        } else {
            prev.push(groups.last().0)
        }
    }
}

/// The include-group references a dev group gains: every non-optional group
/// but `dev` itself, in order.
pub open spec fn spec_include_refs(gm: Seq<(Seq<char>, PoetryGroup)>) -> Seq<
    DependencyGroupSpecificationV,
>
    decreases gm.len(),
{
    if gm.len() == 0 {
        Seq::empty()
    } else {
        let prev = spec_include_refs(gm.drop_last());
        if gm.last().0 != "dev"@ && !(gm.last().1.optional == Some(true)) {
            prev.push(DependencyGroupSpecificationV::IncludeGroup(Some(gm.last().0)))
        } else {
            prev
        }
    }
}

pub open spec fn spec_all_optional_message() -> Seq<char> {
    "Could not migrate dependency groups with \"set-default-groups-all\" strategy because there are optional groups."@
}

/// Resolve the grouped and legacy dev dependencies into dependency groups and
/// the default-groups selector, under the chosen strategy: the legacy dev list
/// always becomes the `dev` group; `MergeIntoDev` copies non-optional groups
/// into `dev`; `IncludeInDev` references them from `dev`; `SetDefaultGroups`
/// lists every non-optional group unless `dev` is the only one;
/// `SetDefaultGroupsAll` selects the `all` sentinel, which cannot stand
/// together with an optional group; `KeepExisting` changes nothing.
pub fn get_dependency_groups_and_default_groups(
    dev_dependencies: Option<&StrMap<DependencySpecification>>,
    group: Option<&StrMap<PoetryGroup>>,
    uv_source_index: &mut StrMap<SourceContainer>,
    errors: &mut MigrationErrors,
    dependency_groups_strategy: DependencyGroupsStrategy,
) -> (r: (Option<StrMap<Vec<DependencyGroupSpecification>>>, Option<SingleOrVec<String>>))
    requires
        map_wf(old(uv_source_index)@),
        group matches Some(gm) ==> map_wf(gm@),
    ensures
        map_wf(final(uv_source_index)@),
        ({
            let init_groups: Seq<(Seq<char>, Seq<DependencyGroupSpecificationV>)> = match dev_dependencies {
                Some(dd) => spec_insert(
                    Seq::empty(),
                    "dev"@,
                    dgs_texts(
                        spec_get_fold(
                            dd@,
                            deep_pairs(old(uv_source_index)@),
                            old(errors)@,
                        ).deps,
                    ),
                ),
                None => Seq::empty(),
            };
            let init_sources = match dev_dependencies {
                Some(dd) => spec_get_fold(
                    dd@,
                    deep_pairs(old(uv_source_index)@),
                    old(errors)@,
                ).sources,
                None => deep_pairs(old(uv_source_index)@),
            };
            let init_errors = match dev_dependencies {
                Some(dd) => spec_get_fold(
                    dd@,
                    deep_pairs(old(uv_source_index)@),
                    old(errors)@,
                ).errors,
                None => old(errors)@,
            };
            let init = GroupsFold { groups: init_groups, sources: init_sources, errors: init_errors };
            let ff = match group {
                Some(gm) => spec_groups_fold(gm@, dependency_groups_strategy, init),
                None => init,
            };
            let all_err: Seq<(Seq<char>, bool)> = if group is Some
                && dependency_groups_strategy == DependencyGroupsStrategy::SetDefaultGroupsAll
                && spec_any_optional(group->Some_0@) {
                seq![(spec_all_optional_message(), false)]
            } else {
                Seq::empty()
            };
            let groups2 = if group is Some && dependency_groups_strategy
                == DependencyGroupsStrategy::IncludeInDev {
                spec_entry_extend(ff.groups, "dev"@, spec_include_refs(group->Some_0@))
            } else {
                ff.groups
            };
            let only_dev = groups2.len() == 1 && groups2[0].0 == "dev"@;
            let default_names = if group is Some {
                spec_default_names(groups2, spec_optional_names(group->Some_0@))
            } else {
                Seq::empty()
            };
            &&& deep_pairs(final(uv_source_index)@) == ff.sources
            &&& final(errors)@ == ff.errors + all_err
            &&& (groups2.len() == 0 ==> r.0 is None && r.1 is None)
            &&& (groups2.len() > 0 ==> {
                &&& (r.0 matches Some(g2) && map_wf(g2@) && deep_pairs(g2@) == groups2)
                &&& (match dependency_groups_strategy {
                    DependencyGroupsStrategy::KeepExisting => r.1 is None,
                    DependencyGroupsStrategy::MergeIntoDev => r.1 is None,
                    DependencyGroupsStrategy::IncludeInDev => r.1 is None,
                    DependencyGroupsStrategy::SetDefaultGroupsAll => (group is Some ==> (
                    r.1 matches Some(SingleOrVec::Single(s)) && s@ == "all"@)) && (group is None
                        ==> r.1 is None),
                    DependencyGroupsStrategy::SetDefaultGroups => {
                        if group is Some && !only_dev && default_names.len() > 0 {
                            (r.1 matches Some(SingleOrVec::Many(v)) && str_views(v@)
                                == default_names)
                        } else {
                            r.1 is None
                        }
                    },
                })
            })
        }),
{
    let mut dependency_groups: StrMap<Vec<DependencyGroupSpecification>> = StrMap::new();
    proof {
        assert(deep_pairs(dependency_groups@) =~= Seq::<
            (Seq<char>, Seq<DependencyGroupSpecificationV>),
        >::empty());
    }
    if let Some(dd) = dev_dependencies {
        let dev_deps = get(Some(dd), uv_source_index, errors);
        let items = dgs_of_deps(dev_deps);
        let ghost items_deep = items.deep_view();
        proof {
            lemma_deep_pairs_insert(dependency_groups@, "dev"@, items);
            let out = spec_get_fold(dd@, deep_pairs(old(uv_source_index)@), old(errors)@);
            assert(dgs_texts(Seq::<Seq<char>>::empty()) =~= Seq::<
                DependencyGroupSpecificationV,
            >::empty());
            assert(items_deep == dgs_texts(out.deps));
        }
        dependency_groups.insert(string_of("dev"), items);
    }
    let ghost init = GroupsFold {
        groups: deep_pairs(dependency_groups@),
        sources: deep_pairs(uv_source_index@),
        errors: errors@,
    };
    proof {
        let s0 = deep_pairs(old(uv_source_index)@);
        let e0b = old(errors)@;
        let init_groups: Seq<(Seq<char>, Seq<DependencyGroupSpecificationV>)> = match dev_dependencies {
            Some(dd) => spec_insert(
                Seq::empty(),
                "dev"@,
                dgs_texts(spec_get_fold(dd@, s0, e0b).deps),
            ),
            None => Seq::empty(),
        };
        assert(init.groups == init_groups);
    }
    let mut all_default_groups = false;
    let mut default_groups: Vec<String> = Vec::new();
    if let Some(gm) = group {
        let ng = gm.len();
        let mut gi: usize = 0;
        proof {
            assert(gm@.take(0) =~= Seq::<(Seq<char>, PoetryGroup)>::empty());
        }
        while gi < ng
            invariant
                0 <= gi <= ng,
                ng == gm@.len(),
                map_wf(uv_source_index@),
                map_wf(dependency_groups@),
                ({
                    let ff = spec_groups_fold(gm@.take(gi as int), dependency_groups_strategy, init);
                    &&& deep_pairs(dependency_groups@) == ff.groups
                    &&& deep_pairs(uv_source_index@) == ff.sources
                    &&& errors@ == ff.errors
                }),
            decreases ng - gi,
        {
            proof {
                assert(gm@.take(gi + 1).drop_last() =~= gm@.take(gi as int));
                assert(gm@.take(gi + 1).last() == gm@[gi as int]);
            }
            let gname = gm.key_at(gi).clone();
            let pgroup = gm.val_at(gi);
            proof {
                assert(gname@ == gm@[gi as int].0);
                assert(*pgroup == gm@[gi as int].1);
            }
            let deps = get(Some(&pgroup.dependencies), uv_source_index, errors);
            let items = dgs_of_deps(deps);
            let merge = matches!(dependency_groups_strategy, DependencyGroupsStrategy::MergeIntoDev);
            let optional = match pgroup.optional {
                Some(true) => true,
                _ => false,
            };
            let target: String = if merge && !optional {
                string_of("dev")
            } else {
                gname
            };
            let ghost g0 = dependency_groups@;
            let ghost items0 = items@;
            let ghost items_deep = items.deep_view();
            let ghost tk = target@;
            let ghost prev_ff = spec_groups_fold(gm@.take(gi as int), dependency_groups_strategy, init);
            dependency_groups.entry_extend(target, items);
            proof {
                lemma_deep_pairs_entry_extend_effect(g0, dependency_groups@, tk, items0);
                assert(items0.map_values(|d: DependencyGroupSpecification| d.deep_view())
                    =~= items_deep);
                let g = gm@[gi as int].1;
                let out = spec_get_fold(g.dependencies@, prev_ff.sources, prev_ff.errors);
                assert(items_deep == dgs_texts(out.deps));
                assert(tk == if dependency_groups_strategy == DependencyGroupsStrategy::MergeIntoDev
                    && !(g.optional == Some(true)) {
                    "dev"@
                } else {
                    gm@[gi as int].0
                });
                assert(deep_pairs(dependency_groups@) == spec_entry_extend(
                    prev_ff.groups,
                    tk,
                    dgs_texts(out.deps),
                ));
            }
            gi += 1;
        }
        proof {
            assert(gm@.take(ng as int) =~= gm@);
        }
        match dependency_groups_strategy {
            DependencyGroupsStrategy::SetDefaultGroupsAll => {
                let mut any_opt = false;
                let mut oi: usize = 0;
                while oi < ng
                    invariant
                        0 <= oi <= ng,
                        ng == gm@.len(),
                        any_opt == exists|w: int|
                            0 <= w < oi && gm@[w].1.optional == Some(true),
                    decreases ng - oi,
                {
                    let og = gm.val_at(oi);
                    if matches!(og.optional, Some(true)) {
                        proof {
                            assert(gm@[oi as int].1.optional == Some(true));
                        }
                        any_opt = true;
                    }
                    oi += 1;
                }
                if any_opt {
                    let mut msg: Vec<char> = Vec::new();
                    text::append_str(
                        &mut msg,
                        "Could not migrate dependency groups with \"set-default-groups-all\" strategy because there are optional groups.",
                    );
                    proof {
                        assert(msg@ =~= spec_all_optional_message());
                    }
                    errors.add_unrecoverable_error(text::string_from_chars(&msg));
                }
                all_default_groups = true;
            },
            DependencyGroupsStrategy::SetDefaultGroups => {
                let only_dev = dependency_groups.len() == 1 && text::chars_eq_str(
                    &text::chars_of(dependency_groups.key_at(0).as_str()),
                    "dev",
                );
                if !only_dev {
                    let ghost optset = spec_optional_names(gm@);
                    let mut optional_names: Vec<String> = Vec::new();
                    let mut oi: usize = 0;
                    proof {
                        assert(gm@.take(0) =~= Seq::<(Seq<char>, PoetryGroup)>::empty());
                    }
                    while oi < ng
                        invariant
                            0 <= oi <= ng,
                            ng == gm@.len(),
                            forall|x: Seq<char>|
                                crate::utils::seq_has_str(str_views(optional_names@), x)
                                    <==> spec_optional_names(gm@.take(oi as int)).contains(x),
                        decreases ng - oi,
                    {
                        proof {
                            assert(gm@.take(oi + 1).drop_last() =~= gm@.take(oi as int));
                            assert(gm@.take(oi + 1).last() == gm@[oi as int]);
                        }
                        let og = gm.val_at(oi);
                        if matches!(og.optional, Some(true)) {
                            let ghost old_names = str_views(optional_names@);
                            optional_names.push(gm.key_at(oi).clone());
                            proof {
                                assert(str_views(optional_names@) =~= old_names.push(
                                    gm@[oi as int].0,
                                ));
                                assert forall|x: Seq<char>|
                                    crate::utils::seq_has_str(str_views(optional_names@), x)
                                        <==> spec_optional_names(gm@.take(oi + 1)).contains(
                                        x,
                                    ) by {
                                    if x == gm@[oi as int].0 {
                                        assert(str_views(optional_names@).last() == x);
                                    } else {
                                        if crate::utils::seq_has_str(
                                            str_views(optional_names@),
                                            x,
                                        ) {
                                            let w = choose|w: int|
                                                0 <= w < str_views(optional_names@).len()
                                                    && str_views(optional_names@)[w] == x;
                                            assert(w < old_names.len());
                                            assert(old_names[w] == x);
                                        }
                                        if crate::utils::seq_has_str(old_names, x) {
                                            let w = choose|w: int|
                                                0 <= w < old_names.len() && old_names[w] == x;
                                            assert(str_views(optional_names@)[w] == x);
                                        }
                                    }
                                }
                            }
                        }
                        oi += 1;
                    }
                    proof {
                        assert(gm@.take(ng as int) =~= gm@);
                    }
                    let nk = dependency_groups.len();
                    let ghost gv = deep_pairs(dependency_groups@);
                    let mut ki: usize = 0;
                    proof {
                        assert(gv.take(0) =~= Seq::<
                            (Seq<char>, Seq<DependencyGroupSpecificationV>),
                        >::empty());
                    }
                    while ki < nk
                        invariant
                            0 <= ki <= nk,
                            nk == dependency_groups@.len(),
                            gv == deep_pairs(dependency_groups@),
                            gv.len() == nk,
                            forall|x: Seq<char>|
                                crate::utils::seq_has_str(str_views(optional_names@), x)
                                    <==> spec_optional_names(gm@).contains(x),
                            str_views(default_groups@) == spec_default_names(
                                gv.take(ki as int),
                                spec_optional_names(gm@),
                            ),
                        decreases nk - ki,
                    {
                        proof {
                            assert(gv.take(ki + 1).drop_last() =~= gv.take(ki as int));
                            assert(gv.take(ki + 1).last() == gv[ki as int]);
                        }
                        let key = dependency_groups.key_at(ki);
                        let key_chars = text::chars_of(key.as_str());
                        proof {
                            assert(key@ == gv[ki as int].0);
                        }
                        if !crate::utils::vec_has_string(&optional_names, &key_chars) {
                            let ghost old_def = str_views(default_groups@);
                            default_groups.push(key.clone());
                            proof {
                                assert(str_views(default_groups@) =~= old_def.push(
                                    gv[ki as int].0,
                                ));
                            }
                        }
                        ki += 1;
                    }
                    proof {
                        assert(gv.take(nk as int) =~= gv);
                    }
                }
            },
            DependencyGroupsStrategy::IncludeInDev => {
                let mut refs: Vec<DependencyGroupSpecification> = Vec::new();
                let mut oi: usize = 0;
                proof {
                    assert(gm@.take(0) =~= Seq::<(Seq<char>, PoetryGroup)>::empty());
                    assert(refs.deep_view() =~= spec_include_refs(gm@.take(0)));
                }
                while oi < ng
                    invariant
                        0 <= oi <= ng,
                        ng == gm@.len(),
                        refs.deep_view() == spec_include_refs(gm@.take(oi as int)),
                    decreases ng - oi,
                {
                    proof {
                        assert(gm@.take(oi + 1).drop_last() =~= gm@.take(oi as int));
                        assert(gm@.take(oi + 1).last() == gm@[oi as int]);
                    }
                    let key = gm.key_at(oi);
                    let og = gm.val_at(oi);
                    proof {
                        assert(key@ == gm@[oi as int].0);
                    }
                    let is_dev = text::chars_eq_str(&text::chars_of(key.as_str()), "dev");
                    let optional = matches!(og.optional, Some(true));
                    if !is_dev && !optional {
                        let ghost old_refs = refs.deep_view();
                        refs.push(
                            DependencyGroupSpecification::IncludeGroup {
                                include_group: Some(key.clone()),
                            },
                        );
                        proof {
                            assert(refs.deep_view() =~= old_refs.push(
                                DependencyGroupSpecificationV::IncludeGroup(
                                    Some(gm@[oi as int].0),
                                ),
                            ));
                        }
                    }
                    oi += 1;
                }
                proof {
                    assert(gm@.take(ng as int) =~= gm@);
                }
                let ghost g0 = dependency_groups@;
                let ghost refs0 = refs@;
                let ghost refs_deep = refs.deep_view();
                let dev_key = string_of("dev");
                let ghost dk = dev_key@;
                dependency_groups.entry_extend(dev_key, refs);
                proof {
                    lemma_deep_pairs_entry_extend_effect(g0, dependency_groups@, dk, refs0);
                    assert(refs0.map_values(|d: DependencyGroupSpecification| d.deep_view())
                        =~= refs_deep);
                }
            },
            _ => {},
        }
    }
    proof {
        let ff = match group {
            Some(gm) => spec_groups_fold(gm@, dependency_groups_strategy, init),
            None => init,
        };
        assert(errors@ =~= errors@ + Seq::<(Seq<char>, bool)>::empty());
        assert(ff.errors =~= ff.errors + Seq::<(Seq<char>, bool)>::empty());
    }
    if dependency_groups.is_empty() {
        proof {
            assert(deep_pairs(dependency_groups@).len() == dependency_groups@.len());
        }
        return (None, None);
    }
    proof {
        assert(deep_pairs(dependency_groups@).len() == dependency_groups@.len());
    }
    let selector: Option<SingleOrVec<String>> = if all_default_groups {
        Some(SingleOrVec::Single(string_of("all")))
    } else if default_groups.len() == 0 {
        None
    } else {
        proof {
            assert(str_views(default_groups@).len() == default_groups@.len());
        }
        Some(SingleOrVec::Many(default_groups))
    };
    (Some(dependency_groups), selector)
}

/// Dependency strings as literal group entries; nothing for `None`.
fn dgs_of_deps(deps: Option<Vec<String>>) -> (r: Vec<DependencyGroupSpecification>)
    ensures
        r.deep_view() == match deps {
            Some(v) => dgs_texts(str_views(v@)),
            None => Seq::<DependencyGroupSpecificationV>::empty(),
        },
{
    let mut r: Vec<DependencyGroupSpecification> = Vec::new();
    match deps {
        None => {
            proof {
                assert(r.deep_view() =~= Seq::<DependencyGroupSpecificationV>::empty());
            }
            r
        },
        Some(v) => {
            let n = v.len();
            let mut i: usize = 0;
            proof {
                assert(r.deep_view() =~= dgs_texts(str_views(v@).take(0)));
            }
            while i < n
                invariant
                    0 <= i <= n,
                    n == v@.len(),
                    r.deep_view() == dgs_texts(str_views(v@).take(i as int)),
                decreases n - i,
            {
                let ghost old_r = r.deep_view();
                r.push(DependencyGroupSpecification::Text(v[i].clone()));
                i += 1;
                proof {
                    assert(r.deep_view() =~= old_r.push(
                        DependencyGroupSpecificationV::Text(str_views(v@)[i - 1]),
                    ));
                    assert(r.deep_view() =~= dgs_texts(str_views(v@).take(i as int)));
                }
            }
            proof {
                assert(str_views(v@).take(n as int) =~= str_views(v@));
                assert(dgs_texts(str_views(v@).take(n as int)) =~= dgs_texts(str_views(v@)));
            }
            r
        },
    }
}

/// A fresh string with the characters of a literal.
fn string_of(s: &str) -> (r: String)
    ensures
        r@ == s@,
{
    text::string_from_chars(&text::chars_of(s))
}

/// Lift `entry_extend`'s effect to the deep-view level.
proof fn lemma_deep_pairs_entry_extend_effect(
    m0: Seq<(Seq<char>, Vec<DependencyGroupSpecification>)>,
    m1: Seq<(Seq<char>, Vec<DependencyGroupSpecification>)>,
    k: Seq<char>,
    items: Seq<DependencyGroupSpecification>,
)
    requires
        map_wf(m0),
        ({
            if map_has_key(m0, k) {
                let i = map_key_idx(m0, k);
                &&& m1.len() == m0.len()
                &&& m1[i].0 == k
                &&& m1[i].1@ == m0[i].1@ + items
                &&& (forall|j: int| 0 <= j < m0.len() && j != i ==> m1[j] == m0[j])
            } else {
                &&& m1.len() == m0.len() + 1
                &&& m1.last().0 == k
                &&& m1.last().1@ == items
                &&& m1.drop_last() == m0
            }
        }),
    ensures
        deep_pairs(m1) == spec_entry_extend(
            deep_pairs(m0),
            k,
            items.map_values(|d: DependencyGroupSpecification| d.deep_view()),
        ),
{
    let dm0 = deep_pairs(m0);
    let dm1 = deep_pairs(m1);
    let ditems = items.map_values(|d: DependencyGroupSpecification| d.deep_view());
    lemma_deep_pairs_has_key_groups(m0, k);
    if map_has_key(m0, k) {
        let i = map_key_idx(m0, k);
        let j = map_key_idx(dm0, k);
        assert(m0[j].0 == k);
        assert(i == j);
        assert(m1[i].1.deep_view() =~= m0[i].1.deep_view() + ditems);
        assert(dm1 =~= spec_entry_extend(dm0, k, ditems));
    } else {
        assert forall|w: int| 0 <= w < m0.len() implies m1[w] == m0[w] by {
            assert(m1.drop_last()[w] == m1[w]);
        }
        assert(m1.last().1.deep_view() =~= ditems);
        assert(dm1 =~= spec_entry_extend(dm0, k, ditems));
    }
}

proof fn lemma_deep_pairs_has_key_groups(
    m: Seq<(Seq<char>, Vec<DependencyGroupSpecification>)>,
    k: Seq<char>,
)
    ensures
        map_has_key(deep_pairs(m), k) == map_has_key(m, k),
{
    let dm = deep_pairs(m);
    if map_has_key(m, k) {
        let i = map_key_idx(m, k);
        assert(dm[i].0 == k);
    }
    if map_has_key(dm, k) {
        let i = map_key_idx(dm, k);
        assert(m[i].0 == k);
    }
}

} // verus!
