//! Conversion of Poetry projects.

use crate::converters::ConverterOptions;
use crate::text;
use crate::utils::str_views;
use vstd::prelude::*;

pub mod build_backend;
pub mod dependencies;
pub mod project;
pub mod sources;
pub mod version;

verus! {

/// A Poetry project under conversion.
pub struct Poetry {
    pub converter_options: ConverterOptions,
}

impl Poetry {
    /// The name of the package manager being converted.
    pub fn get_package_manager_name(&self) -> (r: String)
        ensures
            r@ == "Poetry"@,
    {
        text::string_from_chars(&text::chars_of("Poetry"))
    }

    pub fn get_converter_options(&self) -> (r: &ConverterOptions)
        ensures
            *r == self.converter_options,
    {
        &self.converter_options
    }

    /// The files deleted when the conversion finishes.
    pub fn get_migrated_files_to_delete(&self) -> (r: Vec<String>)
        ensures
            str_views(r@) == seq!["poetry.lock"@, "poetry.toml"@],
    {
        let mut out: Vec<String> = Vec::new();
        out.push(text::string_from_chars(&text::chars_of("poetry.lock")));
        out.push(text::string_from_chars(&text::chars_of("poetry.toml")));
        proof {
            assert(str_views(out@) =~= seq!["poetry.lock"@, "poetry.toml"@]);
        }
        out
    }
}

} // verus!
