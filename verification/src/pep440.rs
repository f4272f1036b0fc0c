//! Trusted view of the PEP 440 parser.
//!
//! What a string means under PEP 440 is decided by the `pep440_rs` crate; the
//! names below stand for its answers, which depend on the given string alone.

use std::str::FromStr;
use vstd::prelude::*;

verus! {

/// Whether the string parses as a PEP 440 version-specifier set.
pub uninterp spec fn pep440_specs_ok(s: Seq<char>) -> bool;

/// Whether the string parses as a single PEP 440 version.
pub uninterp spec fn pep440_version_ok(s: Seq<char>) -> bool;

/// The normalized display of the version parsed from the string.
pub uninterp spec fn pep440_version_display(s: Seq<char>) -> Seq<char>;

/// The release components of the version parsed from the string.
pub uninterp spec fn pep440_version_release(s: Seq<char>) -> Seq<u64>;

/// The (operator, version) displays of the specifiers parsed from the string,
/// in the order the parsed set yields them.
pub uninterp spec fn pep440_specs_parts(s: Seq<char>) -> Seq<(Seq<char>, Seq<char>)>;

/// Whether the specifier set parsed from `specs` contains the release-only
/// version with the given components.
pub uninterp spec fn pep440_contains(specs: Seq<char>, release: Seq<u64>) -> bool;

/// Relies on `pep440_rs::VersionSpecifiers::from_str`: whether the string is a
/// valid comma-separated PEP 440 specifier set (the empty string is).
#[verifier::external_body]
pub(crate) fn specifiers_valid(s: &str) -> (r: bool)
    ensures
        r == pep440_specs_ok(s@),
        s@.len() == 0 ==> r,
{
    pep440_rs::VersionSpecifiers::from_str(s).is_ok()
}

/// Relies on `pep440_rs::Version::from_str`, `Version::release` and the
/// version's `Display`: parse a version and hand out its normalized display
/// and its release components. The display joins the release numbers with
/// dots, between an optional epoch and optional pre/post/dev/local segments;
/// a parsed release always has at least one component.
#[verifier::external_body]
pub(crate) fn version_parts(s: &str) -> (r: Option<(String, Vec<u64>)>)
    ensures
        r is Some <==> pep440_version_ok(s@),
        r matches Some(p) ==> p.0@ == pep440_version_display(s@) && p.1@ == pep440_version_release(
            s@,
        ) && p.1@.len() > 0,
{
    match pep440_rs::Version::from_str(s) {
        Ok(v) => Some((v.to_string(), v.release().to_vec())),
        Err(_) => None,
    }
}

/// Relies on `pep440_rs::VersionSpecifiers::from_str` and on the specifiers'
/// `operator` and `version` accessors with their `Display`s: the parsed
/// specifiers' operator and version texts, in the parsed set's order.
#[verifier::external_body]
pub(crate) fn specifier_parts(s: &str) -> (r: Option<Vec<(String, String)>>)
    ensures
        r is Some <==> pep440_specs_ok(s@),
        r matches Some(v) ==> v.deep_view() == pep440_specs_parts(s@),
{
    match pep440_rs::VersionSpecifiers::from_str(s) {
        Ok(specs) => Some(
            specs.iter().map(|sp| (sp.operator().to_string(), sp.version().to_string())).collect(),
        ),
        Err(_) => None,
    }
}

/// Relies on `pep440_rs::VersionSpecifiers::contains` with a release-only
/// `pep440_rs::Version::new` version. `Version::new` panics on an empty
/// release and `from_str` is only unwrapped where it succeeds, so both are
/// required away.
#[verifier::external_body]
pub(crate) fn specifiers_contain_release(specs: &str, release: &Vec<u64>) -> (r: bool)
    requires
        pep440_specs_ok(specs@),
        release@.len() > 0,
    ensures
        r == pep440_contains(specs@, release@),
{
    let parsed = pep440_rs::VersionSpecifiers::from_str(specs).unwrap();
    parsed.contains(&pep440_rs::Version::new(release.iter()))
}

} // verus!
