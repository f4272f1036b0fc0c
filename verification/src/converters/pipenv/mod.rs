//! Conversion of Pipenv projects.

use crate::converters::ConverterOptions;
use crate::text;
use crate::utils::str_views;
use vstd::prelude::*;

verus! {

/// A Pipenv project under conversion.
pub struct Pipenv {
    pub converter_options: ConverterOptions,
}

impl Pipenv {
    /// The name of the package manager being converted.
    pub fn get_package_manager_name(&self) -> (r: String)
        ensures
            r@ == "Pipenv"@,
    {
        text::string_from_chars(&text::chars_of("Pipenv"))
    }

    pub fn get_converter_options(&self) -> (r: &ConverterOptions)
        ensures
            *r == self.converter_options,
    {
        &self.converter_options
    }

    /// The files deleted when the conversion finishes.
    pub fn get_migrated_files_to_delete(&self) -> (r: Vec<String>)
        ensures
            str_views(r@) == seq!["Pipfile"@, "Pipfile.lock"@],
    {
        let mut out: Vec<String> = Vec::new();
        out.push(text::string_from_chars(&text::chars_of("Pipfile")));
        out.push(text::string_from_chars(&text::chars_of("Pipfile.lock")));
        proof {
            assert(str_views(out@) =~= seq!["Pipfile"@, "Pipfile.lock"@]);
        }
        out
    }
}

/// The python requirement of a Pipfile `[requires]` table: an exact full
/// version pins exactly, and a bare version pins its release line exactly, as
/// Pipenv itself reads them. A full version wins when both are given.
pub fn get_requires_python(
    python_version: Option<String>,
    python_full_version: Option<String>,
) -> (r: Option<String>)
    ensures
        python_full_version matches Some(fv) ==> (r matches Some(s) && s@ == seq!['=', '=']
            + fv@),
        python_full_version is None ==> (python_version matches Some(v) ==> (r matches Some(s)
            && s@ == seq!['=', '='] + v@)),
        (python_full_version is None && python_version is None) ==> r is None,
{
    match python_full_version {
        Some(fv) => {
            let mut out: Vec<char> = Vec::new();
            out.push('=');
            out.push('=');
            text::append_str(&mut out, fv.as_str());
            proof {
                assert(out@ =~= seq!['=', '='] + fv@);
            }
            Some(text::string_from_chars(&out))
        },
        None => match python_version {
            Some(v) => {
                let mut out: Vec<char> = Vec::new();
                out.push('=');
                out.push('=');
                text::append_str(&mut out, v.as_str());
                proof {
                    assert(out@ =~= seq!['=', '='] + v@);
                }
                Some(text::string_from_chars(&out))
            },
            None => None,
        },
    }
}

} // verus!
