//! The PEP 621 project fields derived from the Poetry project section.

use crate::errors::MigrationErrors;
use crate::pep440;
use crate::schema::pep_621::{AuthorOrMaintainer, Project};
use crate::schema::poetry::Script;
use crate::schema::pyproject::BuildSystem;
use crate::schema::utils::SingleOrVec;
use crate::strmap::{map_wf, spec_extend, spec_insert, StrMap};
use crate::text;
use crate::utils::{clone_opt_string, push_unique, spec_add_unique, str_views};
use vstd::prelude::*;

verus! {

pub open spec fn spec_multi_readme_message(readmes: Seq<Seq<char>>) -> Seq<char> {
    "Found multiple files ("@ + text::spec_join_str(
        readmes.map_values(|r: Seq<char>| "\""@ + r + "\""@),
        ", "@,
    )
        + ") in \"tool.poetry.readme\". PEP 621 only supports setting one. Make sure to manually edit the section before migrating."@
}

/// The single readme of the project: a list of several readme files cannot be
/// expressed, so the field is omitted and the ambiguity reported, recoverably.
pub fn get_readme(poetry_readme: Option<SingleOrVec<String>>, errors: &mut MigrationErrors) -> (r:
    Option<String>)
    ensures
        match poetry_readme {
            Some(SingleOrVec::Single(one)) => (r matches Some(x) && x@ == one@ && final(errors)@
                == old(errors)@),
            Some(SingleOrVec::Many(rs)) => {
                if rs@.len() == 0 {
                    r is None && final(errors)@ == old(errors)@
                } else if rs@.len() == 1 {
                    (r matches Some(x) && x@ == rs@[0]@ && final(errors)@ == old(errors)@)
                } else {
                    r is None && final(errors)@ == old(errors)@.push(
                        (spec_multi_readme_message(str_views(rs@)), true),
                    )
                }
            },
            None => r is None && final(errors)@ == old(errors)@,
        },
{
    match poetry_readme {
        Some(SingleOrVec::Single(one)) => Some(one),
        Some(SingleOrVec::Many(rs)) => {
            if rs.len() == 0 {
                None
            } else if rs.len() == 1 {
                Some(rs[0].clone())
            } else {
                let n = rs.len();
                let mut quoted: Vec<Vec<char>> = Vec::new();
                let mut i: usize = 0;
                proof {
                    assert(quoted.deep_view() =~= str_views(rs@).take(0).map_values(
                        |x: Seq<char>| "\""@ + x + "\""@,
                    ));
                }
                while i < n
                    invariant
                        0 <= i <= n,
                        n == rs@.len(),
                        quoted.deep_view() == str_views(rs@).take(i as int).map_values(
                            |x: Seq<char>| "\""@ + x + "\""@,
                        ),
                    decreases n - i,
                {
                    let mut q: Vec<char> = Vec::new();
                    text::append_str(&mut q, "\"");
                    text::append_str(&mut q, rs[i].as_str());
                    text::append_str(&mut q, "\"");
                    proof {
                        text::lemma_chars_deep_view(&q);
                    }
                    let ghost old_q = quoted.deep_view();
                    quoted.push(q);
                    i += 1;
                    proof {
                        assert(quoted.deep_view() =~= old_q.push(
                            "\""@ + str_views(rs@)[i - 1] + "\""@,
                        ));
                        assert(quoted.deep_view() =~= str_views(rs@).take(i as int).map_values(
                            |x: Seq<char>| "\""@ + x + "\""@,
                        ));
                    }
                }
                proof {
                    assert(str_views(rs@).take(n as int) =~= str_views(rs@));
                }
                let listing = text::join_chars_str(&quoted, ", ");
                let mut msg: Vec<char> = Vec::new();
                text::append_str(&mut msg, "Found multiple files (");
                text::append_chars(&mut msg, &listing);
                text::append_str(
                    &mut msg,
                    ") in \"tool.poetry.readme\". PEP 621 only supports setting one. Make sure to manually edit the section before migrating.",
                );
                proof {
                    assert(msg@ =~= spec_multi_readme_message(str_views(rs@)));
                }
                errors.add_recoverable_error(text::string_from_chars(&msg));
                None
            }
        },
        None => None,
    }
}

pub open spec fn is_angle(c: char) -> bool {
    c == '<' || c == '>'
}

/// The position of the first angle bracket, or the length if there is none.
pub open spec fn first_angle(s: Seq<char>) -> int
    decreases s.len(),
{
    if s.len() == 0 {
        0
    } else if is_angle(s[0]) {
        0
    } else {
        1 + first_angle(s.drop_first())
    }
}

proof fn lemma_first_angle(s: Seq<char>, i: int)
    requires
        0 <= i <= s.len(),
        forall|k: int| 0 <= k < i ==> !is_angle(s[k]),
        i == s.len() || is_angle(s[i]),
    ensures
        first_angle(s) == i,
    decreases i,
{
    if i == 0 {
    } else {
        lemma_first_angle(s.drop_first(), i - 1);
    }
}

/// How an author entry splits into a name and an optional address: a string
/// free of angle brackets is all name; otherwise the name must be followed by
/// one space and an address in angle brackets closing at the very end, both
/// nonempty. Anything else has no reading.
pub open spec fn spec_parse_author(s: Seq<char>) -> Option<(Seq<char>, Option<Seq<char>>)> {
    let k = first_angle(s);
    if k == s.len() {
        if s.len() > 0 {
            Some((s, None))
        } else {
            None
        }
    } else if s[k] == '>' {
        None
    } else if k >= 2 && s[k - 1] == ' ' && s.last() == '>' && s.len() - 1 > k + 1 {
        Some((s.take(k - 1), Some(s.subrange(k + 1, s.len() - 1))))
    } else {
        None
    }
}

/// Split one author entry into its name and optional address.
pub fn parse_author(s: &str) -> (r: Option<AuthorOrMaintainer>)
    ensures
        match r {
            Some(a) => (spec_parse_author(s@) matches Some(p) && a.name.deep_view() == Some(p.0)
                && a.email.deep_view() == p.1),
            None => spec_parse_author(s@) is None,
        },
{
    let cs = text::chars_of(s);
    let n = cs.len();
    let mut k: usize = 0;
    loop
        invariant
            0 <= k <= n,
            n == cs@.len(),
            cs@ == s@,
            forall|t: int| 0 <= t < k ==> !is_angle(cs@[t]),
        ensures
            0 <= k <= n,
            forall|t: int| 0 <= t < k ==> !is_angle(cs@[t]),
            k == n || is_angle(cs@[k as int]),
        decreases n - k,
    {
        if k < n {
            if cs[k] == '<' || cs[k] == '>' {
                break;
            } else {
                k += 1;
            }
        } else {
            break;
        }
    }
    proof {
        lemma_first_angle(s@, k as int);
    }
    if k == n {
        if n > 0 {
            Some(AuthorOrMaintainer { name: Some(text::string_from_chars(&cs)), email: None })
        } else {
            None
        }
    } else if cs[k] == '>' {
        None
    } else if k >= 2 && cs[k - 1] == ' ' && cs[n - 1] == '>' && n - 1 > k + 1 {
        let name = text::subrange_chars(&cs, 0, k - 1);
        let email = text::subrange_chars(&cs, k + 1, n - 1);
        proof {
            assert(name@ == s@.take(k - 1));
        }
        Some(
            AuthorOrMaintainer {
                name: Some(text::string_from_chars(&name)),
                email: Some(text::string_from_chars(&email)),
            },
        )
    } else {
        None
    }
}

/// Turn the author strings into PEP 621 author entries; every entry must have
/// a readable shape.
pub fn get_authors(authors: Option<Vec<String>>) -> (r: Option<Vec<AuthorOrMaintainer>>)
    requires
        authors matches Some(v) ==> forall|i: int|
            0 <= i < v@.len() ==> spec_parse_author(v@[i]@) is Some,
    ensures
        authors is None ==> r is None,
        authors matches Some(v) ==> (r matches Some(out) && out@.len() == v@.len() && forall|i: int|
            #![trigger out@[i]]
            0 <= i < v@.len() ==> (spec_parse_author(v@[i]@) matches Some(p)
                && out@[i].name.deep_view() == Some(p.0) && out@[i].email.deep_view() == p.1)),
{
    let v = match authors {
        Some(v) => v,
        None => {
            return None;
        },
    };
    let n = v.len();
    let mut out: Vec<AuthorOrMaintainer> = Vec::new();
    let mut i: usize = 0;
    while i < n
        invariant
            0 <= i <= n,
            n == v@.len(),
            forall|t: int| 0 <= t < n ==> spec_parse_author(v@[t]@) is Some,
            out@.len() == i,
            forall|t: int|
                #![trigger out@[t]]
                0 <= t < i ==> (spec_parse_author(v@[t]@) matches Some(p)
                    && out@[t].name.deep_view() == Some(p.0) && out@[t].email.deep_view() == p.1),
        decreases n - i,
    {
        match parse_author(v[i].as_str()) {
            Some(a) => {
                out.push(a);
            },
            None => {
                proof {
                    assert(spec_parse_author(v@[i as int]@) is Some);
                    assert(false);
                }
            },
        }
        i += 1;
    }
    Some(out)
}

/// The project URL table: the dedicated homepage, repository and documentation
/// fields first, then the free-form URL table, which overrides them on a
/// case-sensitive name match.
pub fn get_urls(
    poetry_urls: Option<StrMap<String>>,
    homepage: Option<String>,
    repository: Option<String>,
    documentation: Option<String>,
) -> (r: Option<StrMap<String>>)
    ensures
        ({
            let m0 = Seq::<(Seq<char>, String)>::empty();
            let m1 = match homepage {
                Some(h) => spec_insert(m0, "Homepage"@, h),
                None => m0,
            };
            let m2 = match repository {
                Some(x) => spec_insert(m1, "Repository"@, x),
                None => m1,
            };
            let m3 = match documentation {
                Some(x) => spec_insert(m2, "Documentation"@, x),
                None => m2,
            };
            let m4 = match poetry_urls {
                Some(u) => spec_extend(m3, u@),
                None => m3,
            };
            &&& (m4.len() == 0 ==> r is None)
            &&& (m4.len() > 0 ==> (r matches Some(mm) && mm@ == m4 && map_wf(mm@)))
        }),
{
    let mut urls: StrMap<String> = StrMap::new();
    if let Some(h) = homepage {
        urls.insert(text::string_from_chars(&text::chars_of("Homepage")), h);
    }
    if let Some(x) = repository {
        urls.insert(text::string_from_chars(&text::chars_of("Repository")), x);
    }
    if let Some(x) = documentation {
        urls.insert(text::string_from_chars(&text::chars_of("Documentation")), x);
    }
    if let Some(u) = poetry_urls {
        urls.extend_from(u);
    }
    if urls.is_empty() {
        return None;
    }
    Some(urls)
}

/// The script table collected from a script map: plain commands and present
/// callables keep their names, a script without a callable is dropped.
pub open spec fn spec_collect_scripts(m: Seq<(Seq<char>, Script)>) -> Seq<(Seq<char>, String)>
    decreases m.len(),
{
    if m.len() == 0 {
        Seq::empty()
    } else {
        let rest = spec_collect_scripts(m.drop_last());
        match m.last().1 {
            Script::Text(t) => spec_insert(rest, m.last().0, t),
            Script::Callable { callable: Some(c) } => spec_insert(rest, m.last().0, c),
            Script::Callable { callable: None } => rest,
        }
    }
}

/// The project scripts: Poetry's script table first, then entry points that
/// plugins contribute, which override on a name match.
pub fn get_scripts(
    poetry_scripts: Option<StrMap<Script>>,
    scripts_from_plugins: Option<StrMap<String>>,
) -> (r: Option<StrMap<String>>)
    ensures
        ({
            let m1 = match poetry_scripts {
                Some(ps) => spec_collect_scripts(ps@),
                None => Seq::<(Seq<char>, String)>::empty(),
            };
            let m2 = match scripts_from_plugins {
                Some(sp) => spec_extend(m1, sp@),
                None => m1,
            };
            &&& (m2.len() == 0 ==> r is None)
            &&& (m2.len() > 0 ==> (r matches Some(mm) && mm@ == m2 && map_wf(mm@)))
        }),
{
    let mut scripts: StrMap<String> = StrMap::new();
    if let Some(ps) = poetry_scripts {
        let ghost pv = ps@;
        let mut ps = ps;
        let n = ps.entries.len();
        let mut i: usize = 0;
        proof {
            assert(pv.take(0) =~= Seq::<(Seq<char>, Script)>::empty());
            assert(pv.skip(0) =~= pv);
        }
        while i < n
            invariant
                0 <= i <= n,
                n == pv.len(),
                map_wf(scripts@),
                scripts@ == spec_collect_scripts(pv.take(i as int)),
                ps@ == pv.skip(i as int),
                ps@.len() == n - i,
            decreases n - i,
        {
            let ghost oe = ps.entries@;
            let ghost om = ps@;
            proof {
                assert(ps.entries@.len() == ps@.len());
            }
            let e = ps.entries.remove(0);
            proof {
                assert(ps.entries@ =~= oe.skip(1));
                assert(e == oe[0]);
                assert forall|t: int| 0 <= t < ps@.len() implies ps@[t] == pv.skip(i + 1)[t] by {
                    assert(ps@[t] == (ps.entries@[t].key@, ps.entries@[t].val));
                    assert(ps.entries@[t] == oe[t + 1]);
                    assert(om[t + 1] == (oe[t + 1].key@, oe[t + 1].val));
                    assert(om[t + 1] == pv.skip(i as int)[t + 1]);
                }
                assert(ps@ =~= pv.skip(i + 1));
                assert((e.key@, e.val) == om[0]);
                assert(e.key@ == pv[i as int].0 && e.val == pv[i as int].1);
                assert(pv.take(i + 1).drop_last() =~= pv.take(i as int));
                assert(pv.take(i + 1).last() == pv[i as int]);
            }
            match e.val {
                Script::Text(t) => {
                    scripts.insert(e.key, t);
                },
                Script::Callable { callable: Some(c) } => {
                    scripts.insert(e.key, c);
                },
                Script::Callable { callable: None } => {},
            }
            i += 1;
        }
        proof {
            assert(pv.take(n as int) =~= pv);
        }
    }
    if let Some(sp) = scripts_from_plugins {
        scripts.extend_from(sp);
    }
    if scripts.is_empty() {
        return None;
    }
    Some(scripts)
}

pub const EARLIEST_SUPPORTED_PYTHON_3_MINOR_VERSION: u64 = 4;

pub const LATEST_SUPPORTED_PYTHON_3_MINOR_VERSION: u64 = 14;

pub open spec fn classifier_py2() -> Seq<char> {
    "Programming Language :: Python :: 2"@
}

pub open spec fn classifier_py27() -> Seq<char> {
    "Programming Language :: Python :: 2.7"@
}

pub open spec fn classifier_py3() -> Seq<char> {
    "Programming Language :: Python :: 3"@
}

pub open spec fn classifier_py3_minor(m: u64) -> Seq<char> {
    "Programming Language :: Python :: 3."@ + text::spec_u64_str(m)
}

/// The strings deduplicated, keeping the first occurrence of each.
pub open spec fn spec_dedup(s: Seq<Seq<char>>) -> Seq<Seq<char>>
    decreases s.len(),
{
    if s.len() == 0 {
        Seq::empty()
    } else {
        spec_add_unique(spec_dedup(s.drop_last()), s.last())
    }
}

/// The tags for every supported minor of the third major line whose version
/// the constraint contains.
pub open spec fn add_minors_from(s: Seq<Seq<char>>, ps: Seq<char>, m: u64) -> Seq<Seq<char>>
    decreases 15 - m,
{
    if m > LATEST_SUPPORTED_PYTHON_3_MINOR_VERSION {
        s
    } else {
        let s2 = if pep440::pep440_contains(ps, seq![3u64, m]) {
            spec_add_unique(spec_add_unique(s, classifier_py3()), classifier_py3_minor(m))
        } else {
            s
        };
        add_minors_from(s2, ps, (m + 1) as u64)
    }
}

/// Every supported minor tag of the third major line, unconditionally.
pub open spec fn add_all_minors(s: Seq<Seq<char>>, m: u64) -> Seq<Seq<char>>
    decreases 15 - m,
{
    if m > LATEST_SUPPORTED_PYTHON_3_MINOR_VERSION {
        s
    } else {
        add_all_minors(spec_add_unique(s, classifier_py3_minor(m)), (m + 1) as u64)
    }
}

/// The full historical tag set added when no constraint is known.
pub open spec fn spec_historical(s: Seq<Seq<char>>) -> Seq<Seq<char>> {
    add_all_minors(
        spec_add_unique(
            spec_add_unique(spec_add_unique(s, classifier_py2()), classifier_py27()),
            classifier_py3(),
        ),
        EARLIEST_SUPPORTED_PYTHON_3_MINOR_VERSION,
    )
}

/// The tags added for a parseable constraint: the legacy pair when it contains
/// the last second-major version, then each contained minor.
pub open spec fn spec_from_python_spec(s: Seq<Seq<char>>, ps: Seq<char>) -> Seq<Seq<char>> {
    let s2 = if pep440::pep440_contains(ps, seq![2u64, 7u64]) {
        spec_add_unique(spec_add_unique(s, classifier_py2()), classifier_py27())
    } else {
        s
    };
    add_minors_from(s2, ps, EARLIEST_SUPPORTED_PYTHON_3_MINOR_VERSION)
}

/// The classifier list a conversion ends up with: the declared ones, in their
/// order and deduplicated, plus the synthesized version tags.
pub open spec fn spec_classifiers(
    existing: Seq<Seq<char>>,
    synthesize: bool,
    python_spec: Option<Seq<char>>,
) -> Seq<Seq<char>> {
    let base = spec_dedup(existing);
    if !synthesize {
        base
    } else {
        match python_spec {
            Some(ps) => if pep440::pep440_specs_ok(ps) {
                spec_from_python_spec(base, ps)
            } else {
                spec_historical(base)
            },
            None => spec_historical(base),
        }
    }
}

fn classifier_minor_chars(m: u64) -> (r: Vec<char>)
    ensures
        r@ == classifier_py3_minor(m),
{
    let mut out: Vec<char> = Vec::new();
    text::append_str(&mut out, "Programming Language :: Python :: 3.");
    let digits = text::u64_to_chars(m);
    text::append_chars(&mut out, &digits);
    out
}

/// Build the classifiers of the converted project. Poetry synthesizes Python
/// version tags when it is the build backend and no PEP 621 classifiers are
/// declared: each supported version the python constraint contains yields its
/// minor tag and the shared major tag, and without a readable constraint the
/// full historical set is taken. Declared classifiers keep their order, and
/// duplicates are dropped.
pub fn get_classifiers(
    classifiers: Option<Vec<String>>,
    build_system: Option<&BuildSystem>,
    requires_python: Option<String>,
    project: Option<&Project>,
) -> (r: Option<Vec<String>>)
    ensures
        ({
            let existing = match classifiers {
                Some(c) => str_views(c@),
                None => Seq::<Seq<char>>::empty(),
            };
            let synthesize = build_system is Some && !(project matches Some(p)
                && p.classifiers is Some);
            let ps = match requires_python {
                Some(p) => Some(p@),
                None => match project {
                    Some(pr) => pr.requires_python.deep_view(),
                    None => None,
                },
            };
            let out = spec_classifiers(existing, synthesize, ps);
            &&& (out.len() == 0 ==> r is None)
            &&& (out.len() > 0 ==> (r matches Some(v) && str_views(v@) == out))
        }),
{
    let mut base: Vec<String> = Vec::new();
    let ghost existing = match classifiers {
        Some(ref c) => str_views(c@),
        None => Seq::<Seq<char>>::empty(),
    };
    if let Some(cs) = classifiers {
        let n = cs.len();
        let mut i: usize = 0;
        proof {
            assert(str_views(cs@).take(0) =~= Seq::<Seq<char>>::empty());
        }
        while i < n
            invariant
                0 <= i <= n,
                n == cs@.len(),
                existing == str_views(cs@),
                str_views(base@) == spec_dedup(str_views(cs@).take(i as int)),
            decreases n - i,
        {
            let item = text::chars_of(cs[i].as_str());
            push_unique(&mut base, item);
            i += 1;
            proof {
                assert(str_views(cs@).take(i as int).drop_last() =~= str_views(cs@).take(i - 1));
                assert(str_views(cs@).take(i as int).last() == str_views(cs@)[i - 1]);
            }
        }
        proof {
            assert(str_views(cs@).take(n as int) =~= str_views(cs@));
        }
    }
    proof {
        assert(str_views(base@) == spec_dedup(existing));
    }
    let has_pep_621_classifiers = match project {
        Some(p) => p.classifiers.is_some(),
        None => false,
    };
    if build_system.is_some() && !has_pep_621_classifiers {
        let python_spec: Option<String> = match requires_python {
            Some(p) => Some(p),
            None => match project {
                Some(pr) => clone_opt_string(&pr.requires_python),
                None => None,
            },
        };
        let mut parseable = false;
        if let Some(ref ps) = python_spec {
            if pep440::specifiers_valid(ps.as_str()) {
                parseable = true;
                let ghost base0 = str_views(base@);
                let mut probe: Vec<u64> = Vec::new();
                probe.push(2);
                probe.push(7);
                proof {
                    assert(probe@ =~= seq![2u64, 7u64]);
                }
                if pep440::specifiers_contain_release(ps.as_str(), &probe) {
                    push_unique(&mut base, text::chars_of("Programming Language :: Python :: 2"));
                    push_unique(&mut base, text::chars_of("Programming Language :: Python :: 2.7"));
                }
                let ghost target = spec_from_python_spec(base0, ps@);
                let mut m: u64 = EARLIEST_SUPPORTED_PYTHON_3_MINOR_VERSION;
                while m <= LATEST_SUPPORTED_PYTHON_3_MINOR_VERSION
                    invariant
                        EARLIEST_SUPPORTED_PYTHON_3_MINOR_VERSION <= m
                            <= LATEST_SUPPORTED_PYTHON_3_MINOR_VERSION + 1,
                        pep440::pep440_specs_ok(ps@),
                        target == add_minors_from(str_views(base@), ps@, m),
                        target == spec_from_python_spec(base0, ps@),
                    decreases LATEST_SUPPORTED_PYTHON_3_MINOR_VERSION + 1 - m,
                {
                    let mut probe_m: Vec<u64> = Vec::new();
                    probe_m.push(3);
                    probe_m.push(m);
                    proof {
                        assert(probe_m@ =~= seq![3u64, m]);
                    }
                    if pep440::specifiers_contain_release(ps.as_str(), &probe_m) {
                        push_unique(
                            &mut base,
                            text::chars_of("Programming Language :: Python :: 3"),
                        );
                        push_unique(&mut base, classifier_minor_chars(m));
                    }
                    m += 1;
                }
                proof {
                    assert(str_views(base@) == target);
                }
            }
        }
        if !parseable {
            let ghost base0 = str_views(base@);
            push_unique(&mut base, text::chars_of("Programming Language :: Python :: 2"));
            push_unique(&mut base, text::chars_of("Programming Language :: Python :: 2.7"));
            push_unique(&mut base, text::chars_of("Programming Language :: Python :: 3"));
            let ghost target = spec_historical(base0);
            let mut m: u64 = EARLIEST_SUPPORTED_PYTHON_3_MINOR_VERSION;
            while m <= LATEST_SUPPORTED_PYTHON_3_MINOR_VERSION
                invariant
                    EARLIEST_SUPPORTED_PYTHON_3_MINOR_VERSION <= m
                        <= LATEST_SUPPORTED_PYTHON_3_MINOR_VERSION + 1,
                    target == add_all_minors(str_views(base@), m),
                    target == spec_historical(base0),
                decreases LATEST_SUPPORTED_PYTHON_3_MINOR_VERSION + 1 - m,
            {
                push_unique(&mut base, classifier_minor_chars(m));
                m += 1;
            }
            proof {
                assert(str_views(base@) == target);
            }
        }
    }
    if base.is_empty() {
        proof {
            assert(str_views(base@).len() == base@.len());
        }
        return None;
    }
    proof {
        assert(str_views(base@).len() == base@.len());
    }
    Some(base)
}

} // verus!
