//! Translation of Poetry packaging rules into the uv build model.
//!
//! The uv backend is module-oriented: it cannot rewrite paths, has no per-file
//! wheel-only inclusion, and a declared module must hold a package marker
//! file. Rules that fit none of its forms are collected as complaints, and
//! the translation only succeeds when there is no complaint.

use crate::converters::poetry::build_backend::{formats_contain, formats_contain_exec};
use crate::fsmodel::{oracle_exists, oracle_is_file, spec_join_path, FsOracle};
use crate::schema::poetry::{Format, Include, Package};
use crate::schema::utils::SingleOrVec;
use crate::schema::uv::UvBuildBackend;
use crate::text;
use crate::text::{spec_contains_char, spec_replace_char};
use crate::utils::str_views;
use vstd::prelude::*;

verus! {

pub open spec fn msg_uv_field(pattern: Seq<char>, field: Seq<char>) -> Seq<char> {
    "\""@ + pattern
        + "\" from \"poetry.packages.include\" cannot be converted to uv, as it uses \""@ + field
        + "\", which cannot be expressed with uv."@
}

pub open spec fn msg_uv_pkg_dist(pattern: Seq<char>, wheel_only: bool, reason: Option<Seq<char>>) -> Seq<char> {
    "\""@ + pattern + "\" from \"poetry.packages.include\" cannot be converted to uv, as it is configured to be added to "@
        + (if wheel_only {
        "wheels only"@
    } else {
        "both source distribution and wheels"@
    }) + (match reason {
        Some(re) => ", and "@ + re,
        None => Seq::empty(),
    }) + ", which cannot be expressed with uv."@
}

pub open spec fn msg_uv_inc_dist(path: Seq<char>, wheel_only: bool) -> Seq<char> {
    "\""@ + path + "\" from \"poetry.include\" cannot be converted to uv, as it is configured to be added to "@
        + (if wheel_only {
        "wheels only"@
    } else {
        "both source distribution and wheels"@
    }) + ", which cannot be expressed with uv."@
}

pub open spec fn msg_uv_missing_init(pattern: Seq<char>) -> Seq<char> {
    "\""@ + pattern
        + "\" from \"poetry.packages.include\" cannot be converted to uv, as it does not contain an \"__init__.py\" file, which is required by uv for packages."@
}

fn build_msg_uv_field(pattern: &Vec<char>, field: &str) -> (r: String)
    ensures
        r@ == msg_uv_field(pattern@, field@),
{
    let mut m: Vec<char> = Vec::new();
    text::append_str(&mut m, "\"");
    text::append_chars(&mut m, pattern);
    text::append_str(
        &mut m,
        "\" from \"poetry.packages.include\" cannot be converted to uv, as it uses \"",
    );
    text::append_str(&mut m, field);
    text::append_str(&mut m, "\", which cannot be expressed with uv.");
    proof {
        assert(m@ =~= msg_uv_field(pattern@, field@));
    }
    text::string_from_chars(&m)
}

fn build_msg_uv_pkg_dist(pattern: &Vec<char>, wheel_only: bool, reason: Option<&str>) -> (r:
    String)
    ensures
        r@ == msg_uv_pkg_dist(
            pattern@,
            wheel_only,
            match reason {
                Some(re) => Some(re@),
                None => None,
            },
        ),
{
    let mut m: Vec<char> = Vec::new();
    text::append_str(&mut m, "\"");
    text::append_chars(&mut m, pattern);
    text::append_str(
        &mut m,
        "\" from \"poetry.packages.include\" cannot be converted to uv, as it is configured to be added to ",
    );
    if wheel_only {
        text::append_str(&mut m, "wheels only");
    } else {
        text::append_str(&mut m, "both source distribution and wheels");
    }
    match reason {
        Some(re) => {
            text::append_str(&mut m, ", and ");
            text::append_str(&mut m, re);
        },
        None => {},
    }
    text::append_str(&mut m, ", which cannot be expressed with uv.");
    proof {
        assert(m@ =~= msg_uv_pkg_dist(
            pattern@,
            wheel_only,
            match reason {
                Some(re) => Some(re@),
                None => None,
            },
        ));
    }
    text::string_from_chars(&m)
}

fn build_msg_uv_inc_dist(path: &Vec<char>, wheel_only: bool) -> (r: String)
    ensures
        r@ == msg_uv_inc_dist(path@, wheel_only),
{
    let mut m: Vec<char> = Vec::new();
    text::append_str(&mut m, "\"");
    text::append_chars(&mut m, path);
    text::append_str(
        &mut m,
        "\" from \"poetry.include\" cannot be converted to uv, as it is configured to be added to ",
    );
    if wheel_only {
        text::append_str(&mut m, "wheels only");
    } else {
        text::append_str(&mut m, "both source distribution and wheels");
    }
    text::append_str(&mut m, ", which cannot be expressed with uv.");
    proof {
        assert(m@ =~= msg_uv_inc_dist(path@, wheel_only));
    }
    text::string_from_chars(&m)
}

fn build_msg_uv_missing_init(pattern: &Vec<char>) -> (r: String)
    ensures
        r@ == msg_uv_missing_init(pattern@),
{
    let mut m: Vec<char> = Vec::new();
    text::append_str(&mut m, "\"");
    text::append_chars(&mut m, pattern);
    text::append_str(
        &mut m,
        "\" from \"poetry.packages.include\" cannot be converted to uv, as it does not contain an \"__init__.py\" file, which is required by uv for packages.",
    );
    proof {
        assert(m@ =~= msg_uv_missing_init(pattern@));
    }
    text::string_from_chars(&m)
}

/// What the uv translation has produced so far.
pub struct UvFold {
    pub module_name: Seq<Seq<char>>,
    pub source_include: Seq<Seq<char>>,
    pub source_exclude: Seq<Seq<char>>,
    pub wheel_exclude: Seq<Seq<char>>,
    pub errors: Seq<Seq<char>>,
}

/// The package marker path of a rule: its source-prefixed pattern with the
/// marker file underneath.
pub open spec fn spec_init_path(p: Package) -> Seq<char> {
    spec_join_path(crate::converters::poetry::build_backend::hatch::spec_iwf(p), "__init__.py"@)
}

/// One package rule folded into the uv model: a rule with a source or target
/// directory is a complaint; a glob or file rule fits only the source
/// distribution; a directory rule becomes a module when its marker file
/// exists, excluded from the distribution it does not select.
pub open spec fn spec_uv_pkg_step(prev: UvFold, p: Package, oracle: FsOracle) -> UvFold {
    let f0 = if p.from is Some {
        UvFold { errors: prev.errors.push(msg_uv_field(p.pattern@, "from"@)), ..prev }
    } else {
        prev
    };
    let f1 = if p.to is Some {
        UvFold { errors: f0.errors.push(msg_uv_field(p.pattern@, "to"@)), ..f0 }
    } else {
        f0
    };
    let glob = spec_contains_char(p.pattern@, '*');
    let isfile = oracle_is_file(oracle, p.pattern@);
    if glob || isfile {
        let reason = if glob {
            "uses globs"@
        } else {
            "is a file"@
        };
        match p.format {
            None => UvFold {
                errors: f1.errors.push(msg_uv_pkg_dist(p.pattern@, false, Some(reason))),
                ..f1
            },
            Some(SingleOrVec::Single(Format::Wheel)) => UvFold {
                errors: f1.errors.push(msg_uv_pkg_dist(p.pattern@, true, Some(reason))),
                ..f1
            },
            Some(SingleOrVec::Single(Format::Sdist)) => UvFold {
                source_include: f1.source_include.push(p.pattern@),
                ..f1
            },
            Some(SingleOrVec::Many(v)) => {
                if v@.len() == 0 {
                    f1
                } else {
                    let s = formats_contain(v@, Format::Sdist);
                    let w = formats_contain(v@, Format::Wheel);
                    if s && !w {
                        UvFold { source_include: f1.source_include.push(p.pattern@), ..f1 }
                    } else if w && s {
                        UvFold {
                            errors: f1.errors.push(
                                msg_uv_pkg_dist(p.pattern@, false, Some(reason)),
                            ),
                            ..f1
                        }
                    } else if w && !s {
                        UvFold {
                            errors: f1.errors.push(
                                msg_uv_pkg_dist(p.pattern@, true, Some(reason)),
                            ),
                            ..f1
                        }
                    } else {
                        f1
                    }
                }
            },
        }
    } else {
        let name = spec_replace_char(p.pattern@, '/', '.');
        let hi = oracle_exists(oracle, spec_init_path(p));
        match p.format {
            None => if hi {
                UvFold { module_name: f1.module_name.push(name), ..f1 }
            } else {
                UvFold { errors: f1.errors.push(msg_uv_missing_init(p.pattern@)), ..f1 }
            },
            Some(SingleOrVec::Single(Format::Wheel)) => UvFold {
                errors: f1.errors.push(msg_uv_pkg_dist(p.pattern@, true, None)),
                ..f1
            },
            Some(SingleOrVec::Single(Format::Sdist)) => if hi {
                UvFold {
                    module_name: f1.module_name.push(name),
                    wheel_exclude: f1.wheel_exclude.push(p.pattern@),
                    ..f1
                }
            } else {
                UvFold { errors: f1.errors.push(msg_uv_missing_init(p.pattern@)), ..f1 }
            },
            Some(SingleOrVec::Many(v)) => {
                if v@.len() == 0 {
                    f1
                } else {
                    let s = formats_contain(v@, Format::Sdist);
                    let w = formats_contain(v@, Format::Wheel);
                    if s && w {
                        if hi {
                            UvFold { module_name: f1.module_name.push(name), ..f1 }
                        } else {
                            UvFold {
                                errors: f1.errors.push(msg_uv_missing_init(p.pattern@)),
                                ..f1
                            }
                        }
                    } else if s && !w {
                        if hi {
                            UvFold {
                                module_name: f1.module_name.push(name),
                                wheel_exclude: f1.wheel_exclude.push(p.pattern@),
                                ..f1
                            }
                        } else {
                            UvFold {
                                errors: f1.errors.push(msg_uv_missing_init(p.pattern@)),
                                ..f1
                            }
                        }
                    } else if w && !s {
                        if hi {
                            UvFold {
                                module_name: f1.module_name.push(name),
                                source_exclude: f1.source_exclude.push(p.pattern@),
                                ..f1
                            }
                        } else {
                            UvFold {
                                errors: f1.errors.push(msg_uv_missing_init(p.pattern@)),
                                ..f1
                            }
                        }
                    } else {
                        f1
                    }
                }
            },
        }
    }
}

pub open spec fn spec_uv_packages(pkgs: Seq<Package>, oracle: FsOracle, init: UvFold) -> UvFold
    decreases pkgs.len(),
{
    if pkgs.len() == 0 {
        init
    } else {
        spec_uv_pkg_step(spec_uv_packages(pkgs.drop_last(), oracle, init), pkgs.last(), oracle)
    }
}

/// One plain inclusion rule folded in: a source-only path joins the source
/// includes (a bare directory with a recursive wildcard appended), and a
/// wheel-only or dual selection is a complaint.
pub open spec fn spec_uv_inc_step(prev: UvFold, inc: Include, oracle: FsOracle) -> UvFold {
    let (path, fmt) = match inc {
        Include::Plain(p) => (p@, None),
        Include::Selected { path, format } => (path@, format),
    };
    let sdist_entry = if spec_contains_char(path, '*') || oracle_is_file(oracle, path) {
        path
    } else {
        path + "/**"@
    };
    match fmt {
        None => UvFold { source_include: prev.source_include.push(sdist_entry), ..prev },
        Some(SingleOrVec::Single(Format::Sdist)) => UvFold {
            source_include: prev.source_include.push(sdist_entry),
            ..prev
        },
        Some(SingleOrVec::Single(Format::Wheel)) => UvFold {
            errors: prev.errors.push(msg_uv_inc_dist(path, true)),
            ..prev
        },
        Some(SingleOrVec::Many(v)) => {
            if v@ == seq![Format::Sdist, Format::Wheel] {
                UvFold { errors: prev.errors.push(msg_uv_inc_dist(path, false)), ..prev }
            } else if v@ == seq![Format::Sdist] {
                UvFold { source_include: prev.source_include.push(sdist_entry), ..prev }
            } else if v@ == seq![Format::Wheel] {
                UvFold { errors: prev.errors.push(msg_uv_inc_dist(path, true)), ..prev }
            } else {
                prev
            }
        },
    }
}

pub open spec fn spec_uv_includes(incs: Seq<Include>, oracle: FsOracle, init: UvFold) -> UvFold
    decreases incs.len(),
{
    if incs.len() == 0 {
        init
    } else {
        spec_uv_inc_step(spec_uv_includes(incs.drop_last(), oracle, init), incs.last(), oracle)
    }
}

/// The whole uv translation: the package rules, then the inclusion rules,
/// then every exclusion pattern mirrored into both exclusion lists.
pub open spec fn spec_uv_all(
    pkgs: Seq<Package>,
    incs: Seq<Include>,
    excl: Seq<Seq<char>>,
    oracle: FsOracle,
) -> UvFold {
    let init = UvFold {
        module_name: Seq::empty(),
        source_include: Seq::empty(),
        source_exclude: Seq::empty(),
        wheel_exclude: Seq::empty(),
        errors: Seq::empty(),
    };
    let pf = spec_uv_packages(pkgs, oracle, init);
    let fi = spec_uv_includes(incs, oracle, pf);
    UvFold {
        source_exclude: fi.source_exclude + excl,
        wheel_exclude: fi.wheel_exclude + excl,
        ..fi
    }
}

fn has_init_file(
    pattern: &Vec<char>,
    from: &Option<String>,
    oracle: &FsOracle,
    errors: &mut Vec<String>,
    Ghost(p): Ghost<Package>,
) -> (r: bool)
    requires
        p.pattern@ == pattern@,
        p.from.deep_view() == from.deep_view(),
    ensures
        r == oracle_exists(*oracle, spec_init_path(p)),
        r ==> final(errors)@ == old(errors)@,
        !r ==> str_views(final(errors)@) == str_views(old(errors)@).push(
            msg_uv_missing_init(pattern@),
        ),
{
    let iwf: Vec<char> = match from {
        Some(f) => crate::fsmodel::join_path(&text::chars_of(f.as_str()), pattern),
        None => {
            let mut c: Vec<char> = Vec::new();
            text::append_chars(&mut c, pattern);
            proof {
                assert(c@ =~= pattern@);
            }
            c
        },
    };
    let marker = text::chars_of("__init__.py");
    let path = crate::fsmodel::join_path(&iwf, &marker);
    proof {
        assert(path@ == spec_init_path(p));
    }
    if oracle.path_exists(&path) {
        true
    } else {
        let ghost old_errs = str_views(errors@);
        errors.push(build_msg_uv_missing_init(pattern));
        proof {
            assert(str_views(errors@) =~= old_errs.push(msg_uv_missing_init(pattern@)));
        }
        false
    }
}

/// Push one string onto a list, at the view level.
fn push_text(list: &mut Vec<String>, item: Vec<char>)
    ensures
        str_views(final(list)@) == str_views(old(list)@).push(item@),
{
    let ghost old_views = str_views(list@);
    list.push(text::string_from_chars(&item));
    proof {
        assert(str_views(list@) =~= old_views.push(item@));
    }
}

/// Whether the translation produced any content.
pub open spec fn spec_uv_any(ff: UvFold) -> bool {
    ff.module_name.len() > 0 || ff.source_include.len() > 0 || ff.source_exclude.len() > 0
        || ff.wheel_exclude.len() > 0
}

/// Whether assembled uv metadata holds exactly the translated content.
pub open spec fn spec_uv_value(u: UvBuildBackend, ff: UvFold) -> bool {
    &&& (u.module_name matches Some(SingleOrVec::Many(v)) && str_views(v@) == ff.module_name)
    &&& (u.module_root matches Some(mr) && mr@ == Seq::<char>::empty())
    &&& u.namespace is None
    &&& u.data is None
    &&& u.default_excludes is None
    &&& (ff.source_include.len() == 0 ==> u.source_include is None)
    &&& (ff.source_include.len() > 0 ==> (u.source_include matches Some(v) && str_views(v@)
        == ff.source_include))
    &&& (ff.source_exclude.len() == 0 ==> u.source_exclude is None)
    &&& (ff.source_exclude.len() > 0 ==> (u.source_exclude matches Some(v) && str_views(v@)
        == ff.source_exclude))
    &&& (ff.wheel_exclude.len() == 0 ==> u.wheel_exclude is None)
    &&& (ff.wheel_exclude.len() > 0 ==> (u.wheel_exclude matches Some(v) && str_views(v@)
        == ff.wheel_exclude))
}

/// Construct uv build metadata from the Poetry package rules, plain inclusion
/// rules, and exclusion patterns, as `spec_uv_all` lays them out. Complaints
/// make the whole translation fail with all of them; an outcome with no
/// content at all is empty.
pub fn get_build_backend(
    packages: Option<&Vec<Package>>,
    includes: Option<&Vec<Include>>,
    exclude: Option<&Vec<String>>,
    oracle: &FsOracle,
) -> (r: Result<Option<UvBuildBackend>, Vec<String>>)
    ensures
        ({
            let ff = spec_uv_all(
                match packages {
                    Some(ps) => ps@,
                    None => Seq::empty(),
                },
                match includes {
                    Some(is_) => is_@,
                    None => Seq::empty(),
                },
                match exclude {
                    Some(e) => str_views(e@),
                    None => Seq::empty(),
                },
                *oracle,
            );
            let any = spec_uv_any(ff);
            &&& (ff.errors.len() > 0 ==> (r matches Err(es) && str_views(es@) == ff.errors))
            &&& (ff.errors.len() == 0 && !any ==> r matches Ok(None))
            &&& (ff.errors.len() == 0 && any ==> (r matches Ok(Some(u)) && spec_uv_value(u, ff)))
        }),
{
    let mut module_name: Vec<String> = Vec::new();
    let mut source_include: Vec<String> = Vec::new();
    let mut source_exclude: Vec<String> = Vec::new();
    let mut wheel_exclude: Vec<String> = Vec::new();
    let mut errors: Vec<String> = Vec::new();
    let ghost init = UvFold {
        module_name: Seq::empty(),
        source_include: Seq::empty(),
        source_exclude: Seq::empty(),
        wheel_exclude: Seq::empty(),
        errors: Seq::empty(),
    };
    if let Some(pkgs) = packages {
        let n = pkgs.len();
        let mut i: usize = 0;
        proof {
            assert(pkgs@.take(0) =~= Seq::<Package>::empty());
        }
        while i < n
            invariant
                0 <= i <= n,
                n == pkgs@.len(),
                ({
                    let pf = spec_uv_packages(pkgs@.take(i as int), *oracle, init);
                    &&& str_views(module_name@) == pf.module_name
                    &&& str_views(source_include@) == pf.source_include
                    &&& str_views(source_exclude@) == pf.source_exclude
                    &&& str_views(wheel_exclude@) == pf.wheel_exclude
                    &&& str_views(errors@) == pf.errors
                }),
            decreases n - i,
        {
            proof {
                assert(pkgs@.take(i + 1).drop_last() =~= pkgs@.take(i as int));
                assert(pkgs@.take(i + 1).last() == pkgs@[i as int]);
            }
            let p = &pkgs[i];
            let pattern = text::chars_of(p.pattern.as_str());
            if p.from.is_some() {
                let ghost old_errs = str_views(errors@);
                errors.push(build_msg_uv_field(&pattern, "from"));
                proof {
                    assert(str_views(errors@) =~= old_errs.push(msg_uv_field(pattern@, "from"@)));
                }
            }
            if p.to.is_some() {
                let ghost old_errs = str_views(errors@);
                errors.push(build_msg_uv_field(&pattern, "to"));
                proof {
                    assert(str_views(errors@) =~= old_errs.push(msg_uv_field(pattern@, "to"@)));
                }
            }
            let glob = text::contains_char(&pattern, '*');
            let isfile = oracle.is_file(&pattern);
            if glob || isfile {
                let reason: &str = if glob {
                    "uses globs"
                } else {
                    "is a file"
                };
                match &p.format {
                    None => {
                        let ghost old_errs = str_views(errors@);
                        errors.push(build_msg_uv_pkg_dist(&pattern, false, Some(reason)));
                        proof {
                            assert(str_views(errors@) =~= old_errs.push(
                                msg_uv_pkg_dist(
                                    pattern@,
                                    false,
                                    Some(
                                        if glob {
                                            "uses globs"@
                                        } else {
                                            "is a file"@
                                        },
                                    ),
                                ),
                            ));
                        }
                    },
                    Some(SingleOrVec::Single(Format::Wheel)) => {
                        let ghost old_errs = str_views(errors@);
                        errors.push(build_msg_uv_pkg_dist(&pattern, true, Some(reason)));
                        proof {
                            assert(str_views(errors@) =~= old_errs.push(
                                msg_uv_pkg_dist(
                                    pattern@,
                                    true,
                                    Some(
                                        if glob {
                                            "uses globs"@
                                        } else {
                                            "is a file"@
                                        },
                                    ),
                                ),
                            ));
                        }
                    },
                    Some(SingleOrVec::Single(Format::Sdist)) => {
                        push_text(&mut source_include, pattern);
                    },
                    Some(SingleOrVec::Many(v)) => {
                        if v.len() > 0 {
                            let s = formats_contain_exec(v, Format::Sdist);
                            let w = formats_contain_exec(v, Format::Wheel);
                            if s && !w {
                                push_text(&mut source_include, pattern);
                            } else if w && s {
                                let ghost old_errs = str_views(errors@);
                                errors.push(build_msg_uv_pkg_dist(&pattern, false, Some(reason)));
                                proof {
                                    assert(str_views(errors@) =~= old_errs.push(
                                        msg_uv_pkg_dist(
                                            pattern@,
                                            false,
                                            Some(
                                                if glob {
                                                    "uses globs"@
                                                } else {
                                                    "is a file"@
                                                },
                                            ),
                                        ),
                                    ));
                                }
                            } else if w && !s {
                                let ghost old_errs = str_views(errors@);
                                errors.push(build_msg_uv_pkg_dist(&pattern, true, Some(reason)));
                                proof {
                                    assert(str_views(errors@) =~= old_errs.push(
                                        msg_uv_pkg_dist(
                                            pattern@,
                                            true,
                                            Some(
                                                if glob {
                                                    "uses globs"@
                                                } else {
                                                    "is a file"@
                                                },
                                            ),
                                        ),
                                    ));
                                }
                            }
                        }
                    },
                }
            } else {
                let name = text::replace_char(&pattern, '/', '.');
                match &p.format {
                    None => {
                        if has_init_file(
                            &pattern,
                            &p.from,
                            oracle,
                            &mut errors,
                            Ghost(pkgs@[i as int]),
                        ) {
                            push_text(&mut module_name, name);
                        }
                    },
                    Some(SingleOrVec::Single(Format::Wheel)) => {
                        let ghost old_errs = str_views(errors@);
                        errors.push(build_msg_uv_pkg_dist(&pattern, true, None));
                        proof {
                            assert(str_views(errors@) =~= old_errs.push(
                                msg_uv_pkg_dist(pattern@, true, None),
                            ));
                        }
                    },
                    Some(SingleOrVec::Single(Format::Sdist)) => {
                        if has_init_file(
                            &pattern,
                            &p.from,
                            oracle,
                            &mut errors,
                            Ghost(pkgs@[i as int]),
                        ) {
                            push_text(&mut module_name, name);
                            push_text(&mut wheel_exclude, pattern);
                        }
                    },
                    Some(SingleOrVec::Many(v)) => {
                        if v.len() > 0 {
                            let s = formats_contain_exec(v, Format::Sdist);
                            let w = formats_contain_exec(v, Format::Wheel);
                            if s && w {
                                if has_init_file(
                                    &pattern,
                                    &p.from,
                                    oracle,
                                    &mut errors,
                                    Ghost(pkgs@[i as int]),
                                ) {
                                    push_text(&mut module_name, name);
                                }
                            } else if s && !w {
                                if has_init_file(
                                    &pattern,
                                    &p.from,
                                    oracle,
                                    &mut errors,
                                    Ghost(pkgs@[i as int]),
                                ) {
                                    push_text(&mut module_name, name);
                                    push_text(&mut wheel_exclude, pattern);
                                }
                            } else if w && !s {
                                if has_init_file(
                                    &pattern,
                                    &p.from,
                                    oracle,
                                    &mut errors,
                                    Ghost(pkgs@[i as int]),
                                ) {
                                    push_text(&mut module_name, name);
                                    push_text(&mut source_exclude, pattern);
                                }
                            }
                        }
                    },
                }
            }
            i += 1;
        }
        proof {
            assert(pkgs@.take(n as int) =~= pkgs@);
        }
    }
    let ghost pf_done = spec_uv_packages(
        match packages {
            Some(ps) => ps@,
            None => Seq::empty(),
        },
        *oracle,
        init,
    );
    if let Some(incs) = includes {
        let n = incs.len();
        let mut i: usize = 0;
        proof {
            assert(incs@.take(0) =~= Seq::<Include>::empty());
        }
        while i < n
            invariant
                0 <= i <= n,
                n == incs@.len(),
                pf_done == spec_uv_packages(
                    match packages {
                        Some(ps) => ps@,
                        None => Seq::empty(),
                    },
                    *oracle,
                    init,
                ),
                ({
                    let fi = spec_uv_includes(incs@.take(i as int), *oracle, pf_done);
                    &&& str_views(module_name@) == fi.module_name
                    &&& str_views(source_include@) == fi.source_include
                    &&& str_views(source_exclude@) == fi.source_exclude
                    &&& str_views(wheel_exclude@) == fi.wheel_exclude
                    &&& str_views(errors@) == fi.errors
                }),
            decreases n - i,
        {
            proof {
                assert(incs@.take(i + 1).drop_last() =~= incs@.take(i as int));
                assert(incs@.take(i + 1).last() == incs@[i as int]);
            }
            let none_fmt: Option<SingleOrVec<Format>> = None;
            let (path, fmt): (&String, &Option<SingleOrVec<Format>>) = match &incs[i] {
                Include::Plain(p) => (p, &none_fmt),
                Include::Selected { path, format } => (path, format),
            };
            let pc = text::chars_of(path.as_str());
            let sdist_entry: Vec<char> = if text::contains_char(&pc, '*') || oracle.is_file(&pc) {
                let mut c: Vec<char> = Vec::new();
                text::append_chars(&mut c, &pc);
                proof {
                    assert(c@ =~= pc@);
                }
                c
            } else {
                let mut c: Vec<char> = Vec::new();
                text::append_chars(&mut c, &pc);
                text::append_str(&mut c, "/**");
                c
            };
            match fmt {
                None => {
                    push_text(&mut source_include, sdist_entry);
                },
                Some(SingleOrVec::Single(Format::Sdist)) => {
                    push_text(&mut source_include, sdist_entry);
                },
                Some(SingleOrVec::Single(Format::Wheel)) => {
                    let ghost old_errs = str_views(errors@);
                    errors.push(build_msg_uv_inc_dist(&pc, true));
                    proof {
                        assert(str_views(errors@) =~= old_errs.push(msg_uv_inc_dist(pc@, true)));
                    }
                },
                Some(SingleOrVec::Many(v)) => {
                    let two = v.len() == 2 && matches!(v[0], Format::Sdist) && matches!(
                        v[1],
                        Format::Wheel,
                    );
                    let one_s = v.len() == 1 && matches!(v[0], Format::Sdist);
                    let one_w = v.len() == 1 && matches!(v[0], Format::Wheel);
                    proof {
                        if two {
                            assert(v@ =~= seq![Format::Sdist, Format::Wheel]);
                        }
                        if one_s {
                            assert(v@ =~= seq![Format::Sdist]);
                        }
                        if one_w {
                            assert(v@ =~= seq![Format::Wheel]);
                        }
                        if !two {
                            assert(v@ != seq![Format::Sdist, Format::Wheel]) by {
                                if v@ == seq![Format::Sdist, Format::Wheel] {
                                    assert(v@.len() == 2 && v@[0] == Format::Sdist && v@[1]
                                        == Format::Wheel);
                                }
                            }
                        }
                        if !one_s {
                            assert(v@ != seq![Format::Sdist]) by {
                                if v@ == seq![Format::Sdist] {
                                    assert(v@.len() == 1 && v@[0] == Format::Sdist);
                                }
                            }
                        }
                        if !one_w {
                            assert(v@ != seq![Format::Wheel]) by {
                                if v@ == seq![Format::Wheel] {
                                    assert(v@.len() == 1 && v@[0] == Format::Wheel);
                                }
                            }
                        }
                    }
                    if two {
                        let ghost old_errs = str_views(errors@);
                        errors.push(build_msg_uv_inc_dist(&pc, false));
                        proof {
                            assert(str_views(errors@) =~= old_errs.push(
                                msg_uv_inc_dist(pc@, false),
                            ));
                        }
                    } else if one_s {
                        push_text(&mut source_include, sdist_entry);
                    } else if one_w {
                        let ghost old_errs = str_views(errors@);
                        errors.push(build_msg_uv_inc_dist(&pc, true));
                        proof {
                            assert(str_views(errors@) =~= old_errs.push(
                                msg_uv_inc_dist(pc@, true),
                            ));
                        }
                    }
                },
            }
            i += 1;
        }
        proof {
            assert(incs@.take(n as int) =~= incs@);
        }
    }
    let ghost fi_done = spec_uv_includes(
        match includes {
            Some(is_) => is_@,
            None => Seq::empty(),
        },
        *oracle,
        pf_done,
    );
    if let Some(excl) = exclude {
        let n = excl.len();
        let mut i: usize = 0;
        proof {
            assert(str_views(excl@).take(0) =~= Seq::<Seq<char>>::empty());
            assert(str_views(source_exclude@) =~= fi_done.source_exclude + str_views(
                excl@,
            ).take(0));
            assert(str_views(wheel_exclude@) =~= fi_done.wheel_exclude + str_views(excl@).take(0));
        }
        while i < n
            invariant
                0 <= i <= n,
                n == excl@.len(),
                str_views(module_name@) == fi_done.module_name,
                str_views(source_include@) == fi_done.source_include,
                str_views(errors@) == fi_done.errors,
                str_views(source_exclude@) == fi_done.source_exclude + str_views(excl@).take(
                    i as int,
                ),
                str_views(wheel_exclude@) == fi_done.wheel_exclude + str_views(excl@).take(
                    i as int,
                ),
            decreases n - i,
        {
            let item = text::chars_of(excl[i].as_str());
            let ghost old_se = str_views(source_exclude@);
            let ghost old_we = str_views(wheel_exclude@);
            push_text(&mut source_exclude, item);
            let item2 = text::chars_of(excl[i].as_str());
            push_text(&mut wheel_exclude, item2);
            i += 1;
            proof {
                assert(str_views(excl@).take(i as int) =~= str_views(excl@).take(i - 1).push(
                    str_views(excl@)[i - 1],
                ));
                assert(old_se.push(str_views(excl@)[i - 1]) =~= fi_done.source_exclude + str_views(
                    excl@,
                ).take(i as int));
                assert(old_we.push(str_views(excl@)[i - 1]) =~= fi_done.wheel_exclude + str_views(
                    excl@,
                ).take(i as int));
            }
        }
        proof {
            assert(str_views(excl@).take(n as int) =~= str_views(excl@));
        }
    } else {
        proof {
            assert(str_views(source_exclude@) =~= fi_done.source_exclude + Seq::<
                Seq<char>,
            >::empty());
            assert(str_views(wheel_exclude@) =~= fi_done.wheel_exclude + Seq::<Seq<char>>::empty());
        }
    }
    if errors.len() > 0 {
        proof {
            assert(str_views(errors@).len() == errors@.len());
        }
        return Err(errors);
    }
    proof {
        assert(str_views(errors@).len() == errors@.len());
        assert(str_views(module_name@).len() == module_name@.len());
        assert(str_views(source_include@).len() == source_include@.len());
        assert(str_views(source_exclude@).len() == source_exclude@.len());
        assert(str_views(wheel_exclude@).len() == wheel_exclude@.len());
    }
    if module_name.len() == 0 && source_include.len() == 0 && source_exclude.len() == 0
        && wheel_exclude.len() == 0 {
        return Ok(None);
    }
    Ok(
        Some(
            UvBuildBackend {
                module_name: Some(SingleOrVec::Many(module_name)),
                module_root: Some(String::new()),
                namespace: None,
                data: None,
                default_excludes: None,
                source_include: crate::utils::non_empty_vec(source_include),
                source_exclude: crate::utils::non_empty_vec(source_exclude),
                wheel_exclude: crate::utils::non_empty_vec(wheel_exclude),
            },
        ),
    )
}

} // verus!
