//! The PEP 621 project fields derived from `setup.cfg` metadata.

use crate::schema::pep_621::AuthorOrMaintainer;
use crate::strmap::StrMap;
use crate::text;
use crate::text::spec_starts_with;
use vstd::prelude::*;

verus! {

/// The project version: a declared static version is kept, while a dynamic
/// `attr:` or `file:` value, or no value at all, falls back to a placeholder.
pub fn get_version(version: Option<String>) -> (r: String)
    ensures
        version is None ==> r@ == "0.0.1"@,
        version matches Some(v) ==> {
            if spec_starts_with(v@, "attr:"@) || spec_starts_with(v@, "file:"@) {
                r@ == "0.0.1"@
            } else {
                r@ == v@
            }
        },
{
    match version {
        Some(v) => {
            let cs = text::chars_of(v.as_str());
            if text::starts_with_str(&cs, "attr:") || text::starts_with_str(&cs, "file:") {
                text::string_from_chars(&text::chars_of("0.0.1"))
            } else {
                v
            }
        },
        None => text::string_from_chars(&text::chars_of("0.0.1")),
    }
}

/// The single author entry of the metadata, when a name or an address is set.
pub fn get_authors(name: Option<String>, email: Option<String>) -> (r: Option<
    Vec<AuthorOrMaintainer>,
>)
    ensures
        (name is None && email is None) ==> r is None,
        (name is Some || email is Some) ==> (r matches Some(v) && v@.len() == 1
            && v@[0].name.deep_view() == name.deep_view() && v@[0].email.deep_view()
            == email.deep_view()),
{
    if name.is_none() && email.is_none() {
        return None;
    }
    let mut v: Vec<AuthorOrMaintainer> = Vec::new();
    v.push(AuthorOrMaintainer { name, email });
    Some(v)
}

/// The project URL table of the metadata; `setup.cfg` keeps none that this
/// conversion reads, so it is always empty.
pub fn get_urls() -> (r: Option<StrMap<String>>)
    ensures
        r is None,
{
    None
}

} // verus!
