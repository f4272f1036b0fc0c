//! Trusted view of the PEP 508 requirement parser.

use std::str::FromStr;
use vstd::prelude::*;

verus! {

/// Whether the string parses as a PEP 508 dependency specification.
pub uninterp spec fn pep508_ok(s: Seq<char>) -> bool;

/// The normalized display of the requirement parsed from the string.
pub uninterp spec fn pep508_normalized(s: Seq<char>) -> Seq<char>;

/// Relies on `pep508_rs::Requirement::<url::Url>::from_str` and the
/// requirement's `Display`: parse a dependency specification and hand back its
/// normalized text.
#[verifier::external_body]
pub(crate) fn requirement_normalized(s: &str) -> (r: Option<String>)
    ensures
        r is Some <==> pep508_ok(s@),
        r matches Some(t) ==> t@ == pep508_normalized(s@),
{
    match pep508_rs::Requirement::<url::Url>::from_str(s) {
        Ok(req) => Some(req.to_string()),
        Err(_) => None,
    }
}

} // verus!
