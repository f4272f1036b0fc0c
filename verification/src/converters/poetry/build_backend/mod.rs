//! Translation of Poetry packaging rules into a build backend.

use crate::converters::BuildBackend;
use crate::errors::MigrationErrors;
use crate::fsmodel::FsOracle;
use crate::schema::hatch::Hatch;
use crate::schema::poetry::{Format, Include, Package};
use crate::schema::pyproject::BuildSystem;
use crate::schema::utils::SingleOrVec;
use crate::schema::uv::UvBuildBackend;
use crate::text;
use crate::utils::str_views;
use vstd::prelude::*;

pub mod hatch;
pub mod uv;

pub use hatch::get_build_backend as get_hatch;
pub use uv::get_build_backend as get_uv;

verus! {

/// The build metadata one of the two backends produced.
pub enum BuildBackendObject {
    Uv(UvBuildBackend),
    Hatch(Hatch),
}

impl BuildBackendObject {
    /// The backend's name.
    pub fn name(&self) -> (r: String)
        ensures
            self is Uv ==> r@ == "uv"@,
            self is Hatch ==> r@ == "hatch"@,
    {
        match self {
            BuildBackendObject::Uv(_) => text::string_from_chars(&text::chars_of("uv")),
            BuildBackendObject::Hatch(_) => text::string_from_chars(&text::chars_of("hatch")),
        }
    }
}

/// Complaint strings appended to the diagnostics as unrecoverable entries.
pub open spec fn errors_appended(
    e0: Seq<(Seq<char>, bool)>,
    msgs: Seq<Seq<char>>,
) -> Seq<(Seq<char>, bool)> {
    e0 + msgs.map_values(|m: Seq<char>| (m, false))
}

pub open spec fn msg_uv_fallback() -> Seq<char> {
    "Package distribution could not be migrated to uv build backend due to the issues above. Consider using hatch build backend with \"--build-backend hatch\"."@
}

/// Translate the packaging rules for the chosen backend: hatch unless uv is
/// asked for. A failed translation leaves its complaints in the diagnostics
/// (a failed uv translation also suggests falling back to hatch) and yields
/// nothing.
pub fn get_build_backend(
    build_backend: Option<BuildBackend>,
    packages: Option<&Vec<Package>>,
    includes: Option<&Vec<Include>>,
    exclude: Option<&Vec<String>>,
    oracle: &FsOracle,
    errors: &mut MigrationErrors,
) -> (r: Option<BuildBackendObject>)
    ensures
        ({
            let pkgs = match packages {
                Some(ps) => ps@,
                None => Seq::empty(),
            };
            let incs = match includes {
                Some(is_) => is_@,
                None => Seq::empty(),
            };
            let ev = match exclude {
                Some(e) => str_views(e@),
                None => Seq::empty(),
            };
            let excl: Option<Vec<String>> = match exclude {
                Some(e) => Some(*e),
                None => None,
            };
            if build_backend == Some(BuildBackend::Uv) {
                let ff = uv::spec_uv_all(pkgs, incs, ev, *oracle);
                &&& (ff.errors.len() > 0 ==> r is None && final(errors)@ == errors_appended(
                    old(errors)@,
                    ff.errors.push(msg_uv_fallback()),
                ))
                &&& (ff.errors.len() == 0 ==> final(errors)@ == old(errors)@)
                &&& (ff.errors.len() == 0 && !uv::spec_uv_any(ff) ==> r is None)
                &&& (ff.errors.len() == 0 && uv::spec_uv_any(ff) ==> (r matches Some(
                    BuildBackendObject::Uv(u),
                ) && uv::spec_uv_value(u, ff)))
            } else {
                let pf = hatch::spec_hatch_packages(pkgs, *oracle);
                let fi = hatch::spec_hatch_includes(incs);
                let any = hatch::spec_hatch_any(pf, fi, excl);
                &&& (pf.errors.len() > 0 ==> r is None && final(errors)@ == errors_appended(
                    old(errors)@,
                    pf.errors,
                ))
                &&& (pf.errors.len() == 0 ==> final(errors)@ == old(errors)@)
                &&& (pf.errors.len() == 0 && !any.0 && !any.1 ==> r is None)
                &&& (pf.errors.len() == 0 && (any.0 || any.1) ==> (r matches Some(
                    BuildBackendObject::Hatch(h),
                ) && hatch::spec_hatch_value(h, pf, fi, excl)))
            }
        }),
{
    let use_uv = matches!(build_backend, Some(BuildBackend::Uv));
    if use_uv {
        match uv::get_build_backend(packages, includes, exclude, oracle) {
            Ok(Some(u)) => Some(BuildBackendObject::Uv(u)),
            Ok(None) => None,
            Err(es) => {
                push_unrecoverable_all(errors, &es);
                let mut m: Vec<char> = Vec::new();
                text::append_str(
                    &mut m,
                    "Package distribution could not be migrated to uv build backend due to the issues above. Consider using hatch build backend with \"--build-backend hatch\".",
                );
                proof {
                    assert(m@ =~= msg_uv_fallback());
                }
                let ghost e1 = errors@;
                errors.add_unrecoverable_error(text::string_from_chars(&m));
                proof {
                    assert(errors@ =~= errors_appended(
                        old(errors)@,
                        str_views(es@).push(msg_uv_fallback()),
                    ));
                }
                None
            },
        }
    } else {
        match hatch::get_build_backend(packages, includes, exclude, oracle) {
            Ok(Some(h)) => Some(BuildBackendObject::Hatch(h)),
            Ok(None) => None,
            Err(es) => {
                push_unrecoverable_all(errors, &es);
                None
            },
        }
    }
}

/// Append every complaint as an unrecoverable diagnostic.
fn push_unrecoverable_all(errors: &mut MigrationErrors, msgs: &Vec<String>)
    ensures
        final(errors)@ == errors_appended(old(errors)@, str_views(msgs@)),
{
    let n = msgs.len();
    let mut i: usize = 0;
    proof {
        assert(errors@ =~= errors_appended(errors@, str_views(msgs@).take(0)));
    }
    while i < n
        invariant
            0 <= i <= n,
            n == msgs@.len(),
            errors@ == errors_appended(old(errors)@, str_views(msgs@).take(i as int)),
        decreases n - i,
    {
        errors.add_unrecoverable_error(msgs[i].clone());
        i += 1;
        proof {
            assert(errors@ =~= errors_appended(old(errors)@, str_views(msgs@).take(i as int)));
        }
    }
    proof {
        assert(str_views(msgs@).take(n as int) =~= str_views(msgs@));
        assert(errors_appended(old(errors)@, str_views(msgs@).take(n as int)) == errors_appended(
            old(errors)@,
            str_views(msgs@),
        ));
    }
}

pub open spec fn formats_contain(v: Seq<Format>, f: Format) -> bool {
    exists|i: int| 0 <= i < v.len() && v[i] == f
}

/// Which distributions a package rule's selector picks: no selector picks
/// both, a single format picks itself, and a list picks what it holds (so an
/// empty list picks neither).
pub open spec fn packages_selector(f: Option<SingleOrVec<Format>>) -> (bool, bool) {
    match f {
        None => (true, true),
        Some(SingleOrVec::Single(Format::Sdist)) => (true, false),
        Some(SingleOrVec::Single(Format::Wheel)) => (false, true),
        Some(SingleOrVec::Many(v)) => (formats_contain(v@, Format::Sdist), formats_contain(
            v@,
            Format::Wheel,
        )),
    }
}

/// Which distributions a plain inclusion rule's selector picks: no selector
/// picks the source distribution only, a single format picks itself, and a
/// list picks only its exact one- or two-element forms.
pub open spec fn includes_selector(f: Option<SingleOrVec<Format>>) -> (bool, bool) {
    match f {
        None => (true, false),
        Some(SingleOrVec::Single(Format::Sdist)) => (true, false),
        Some(SingleOrVec::Single(Format::Wheel)) => (false, true),
        Some(SingleOrVec::Many(v)) => {
            if v@ == seq![Format::Sdist, Format::Wheel] {
                (true, true)
            } else if v@ == seq![Format::Sdist] {
                (true, false)
            } else if v@ == seq![Format::Wheel] {
                (false, true)
            } else {
                (false, false)
            }
        },
    }
}

pub fn formats_contain_exec(v: &Vec<Format>, f: Format) -> (r: bool)
    ensures
        r == formats_contain(v@, f),
{
    let n = v.len();
    let mut i: usize = 0;
    while i < n
        invariant
            0 <= i <= n,
            n == v@.len(),
            forall|k: int| 0 <= k < i ==> v@[k] != f,
        decreases n - i,
    {
        let same = match (v[i], f) {
            (Format::Sdist, Format::Sdist) => true,
            (Format::Wheel, Format::Wheel) => true,
            _ => false,
        };
        if same {
            return true;
        }
        i += 1;
    }
    false
}

pub fn packages_selector_exec(f: &Option<SingleOrVec<Format>>) -> (r: (bool, bool))
    ensures
        r == packages_selector(*f),
{
    match f {
        None => (true, true),
        Some(SingleOrVec::Single(Format::Sdist)) => (true, false),
        Some(SingleOrVec::Single(Format::Wheel)) => (false, true),
        Some(SingleOrVec::Many(v)) => (
            formats_contain_exec(v, Format::Sdist),
            formats_contain_exec(v, Format::Wheel),
        ),
    }
}

pub fn includes_selector_exec(f: &Option<SingleOrVec<Format>>) -> (r: (bool, bool))
    ensures
        r == includes_selector(*f),
{
    match f {
        None => (true, false),
        Some(SingleOrVec::Single(Format::Sdist)) => (true, false),
        Some(SingleOrVec::Single(Format::Wheel)) => (false, true),
        Some(SingleOrVec::Many(v)) => {
            if v.len() == 2 {
                let both = matches!(v[0], Format::Sdist) && matches!(v[1], Format::Wheel);
                proof {
                    if both {
                        assert(v@ =~= seq![Format::Sdist, Format::Wheel]);
                    }
                }
                if both {
                    (true, true)
                } else {
                    proof {
                        assert(v@ != seq![Format::Sdist, Format::Wheel]) by {
                            if v@ == seq![Format::Sdist, Format::Wheel] {
                                assert(v@[0] == Format::Sdist && v@[1] == Format::Wheel);
                            }
                        }
                        assert(v@.len() != 1);
                    }
                    (false, false)
                }
            } else if v.len() == 1 {
                proof {
                    assert(v@.len() != 2);
                }
                if matches!(v[0], Format::Sdist) {
                    proof {
                        assert(v@ =~= seq![Format::Sdist]);
                    }
                    (true, false)
                } else {
                    proof {
                        assert(v@ =~= seq![Format::Wheel]);
                        assert(v@ != seq![Format::Sdist]) by {
                            if v@ == seq![Format::Sdist] {
                                assert(v@[0] == Format::Sdist);
                            }
                        }
                    }
                    (false, true)
                }
            } else {
                proof {
                    assert(v@.len() != 1 && v@.len() != 2);
                }
                (false, false)
            }
        },
    }
}

/// The build system the converted project gets: a project built by Poetry's
/// own backend moves to hatchling or to uv's backend; anything else is left
/// alone.
pub fn get_new_build_system(
    current_build_system: Option<BuildSystem>,
    new_build_system: Option<crate::converters::BuildBackend>,
) -> (r: Option<BuildSystem>)
    ensures
        ({
            let poetry_backend = current_build_system matches Some(bs) && (bs.build_backend
                matches Some(b) && b@ == "poetry.core.masonry.api"@);
            &&& (!poetry_backend ==> r is None)
            &&& (poetry_backend && !(new_build_system == Some(crate::converters::BuildBackend::Uv))
                ==> (r matches Some(n) && (crate::utils::str_views(n.requires@) == seq![
                "hatchling"@,
            ] && (n.build_backend matches Some(b) && b@ == "hatchling.build"@))))
            &&& (poetry_backend && new_build_system == Some(crate::converters::BuildBackend::Uv)
                ==> (r matches Some(n) && (crate::utils::str_views(n.requires@) == seq![
                "uv_build"@,
            ] && (n.build_backend matches Some(b) && b@ == "uv_build"@))))
        }),
{
    let is_poetry_backend = match &current_build_system {
        Some(bs) => match &bs.build_backend {
            Some(b) => {
                let cs = text::chars_of(b.as_str());
                text::chars_eq_str(&cs, "poetry.core.masonry.api")
            },
            None => false,
        },
        None => false,
    };
    if !is_poetry_backend {
        return None;
    }
    match new_build_system {
        Some(crate::converters::BuildBackend::Uv) => {
            let mut req_list: Vec<String> = Vec::new();
            req_list.push(text::string_from_chars(&text::chars_of("uv_build")));
            proof {
                assert(crate::utils::str_views(req_list@) =~= seq!["uv_build"@]);
            }
            Some(
                BuildSystem {
                    requires: req_list,
                    build_backend: Some(text::string_from_chars(&text::chars_of("uv_build"))),
                },
            )
        },
        _ => {
            let mut req_list: Vec<String> = Vec::new();
            req_list.push(text::string_from_chars(&text::chars_of("hatchling")));
            proof {
                assert(crate::utils::str_views(req_list@) =~= seq!["hatchling"@]);
            }
            Some(
                BuildSystem {
                    requires: req_list,
                    build_backend: Some(
                        text::string_from_chars(&text::chars_of("hatchling.build")),
                    ),
                },
            )
        },
    }
}

} // verus!
