//! Conversion of setuptools `setup.cfg` metadata.

use crate::converters::ConverterOptions;
use crate::iniconf::{ascii_folded, ini_get, ini_lookup, ini_view};
use crate::text;
use crate::text::{spec_lines, spec_split, spec_trim};
use crate::utils::str_views;
use configparser::ini::Ini;
use vstd::prelude::*;

pub mod dependencies;
pub mod project;

verus! {

/// A setuptools project under conversion.
pub struct Setuptools {
    pub converter_options: ConverterOptions,
}

impl Setuptools {
    /// The name of the package manager being converted.
    pub fn get_package_manager_name(&self) -> (r: String)
        ensures
            r@ == "Setuptools"@,
    {
        text::string_from_chars(&text::chars_of("Setuptools"))
    }

    pub fn get_converter_options(&self) -> (r: &ConverterOptions)
        ensures
            *r == self.converter_options,
    {
        &self.converter_options
    }

    /// The files deleted when the conversion finishes.
    pub fn get_migrated_files_to_delete(&self) -> (r: Vec<String>)
        ensures
            str_views(r@) == seq!["setup.cfg"@, "setup.py"@],
    {
        let mut out: Vec<String> = Vec::new();
        out.push(text::string_from_chars(&text::chars_of("setup.cfg")));
        out.push(text::string_from_chars(&text::chars_of("setup.py")));
        proof {
            assert(str_views(out@) =~= seq!["setup.cfg"@, "setup.py"@]);
        }
        out
    }

    /// A setuptools project has no lock file, so nothing is pinned.
    pub fn get_constraint_dependencies(&self) -> (r: Option<Vec<String>>)
        ensures
            r is None,
    {
        None
    }
}

/// The value of a key, or of its alias when the key is absent.
pub fn get_with_alias(config: &Ini, section: &str, key: &str, alias: &str) -> (r: Option<String>)
    requires
        ascii_folded(section@),
        ascii_folded(key@),
        ascii_folded(alias@),
    ensures
        r.deep_view() == match ini_lookup(ini_view(*config), section@, key@) {
            Some(v) => Some(v),
            None => ini_lookup(ini_view(*config), section@, alias@),
        },
{
    match ini_get(config, section, key) {
        Some(v) => Some(v),
        None => ini_get(config, section, alias),
    }
}

/// A comma-separated value split into its trimmed pieces.
pub fn get_comma_separated_value(value: Option<String>) -> (r: Option<Vec<String>>)
    ensures
        value is None ==> r is None,
        value matches Some(v) ==> (r matches Some(out) && str_views(out@) == spec_split(
            v@,
            ',',
        ).map_values(|p: Seq<char>| spec_trim(p))),
{
    let v = match value {
        Some(v) => v,
        None => {
            return None;
        },
    };
    let cs = text::chars_of(v.as_str());
    let pieces = text::split_char(&cs, ',');
    let ghost pv = pieces.deep_view();
    let n = pieces.len();
    let mut out: Vec<String> = Vec::new();
    let mut i: usize = 0;
    proof {
        assert(str_views(out@) =~= pv.take(0).map_values(|p: Seq<char>| spec_trim(p)));
    }
    while i < n
        invariant
            0 <= i <= n,
            n == pieces@.len(),
            pv == pieces.deep_view(),
            pv.len() == n,
            str_views(out@) == pv.take(i as int).map_values(|p: Seq<char>| spec_trim(p)),
        decreases n - i,
    {
        proof {
            text::lemma_chars_deep_view(&pieces@[i as int]);
        }
        let t = text::trim_chars(&pieces[i]);
        let ghost old_out = str_views(out@);
        out.push(text::string_from_chars(&t));
        i += 1;
        proof {
            assert(str_views(out@) =~= old_out.push(spec_trim(pv[i - 1])));
            assert(str_views(out@) =~= pv.take(i as int).map_values(|p: Seq<char>| spec_trim(p)));
        }
    }
    proof {
        assert(pv.take(n as int) =~= pv);
        assert(pv.take(n as int).map_values(|p: Seq<char>| spec_trim(p)) == pv.map_values(
            |p: Seq<char>| spec_trim(p),
        ));
    }
    Some(out)
}

/// A multi-line value split into its lines, after trimming the whole value.
pub fn get_multi_line_value(value: Option<String>) -> (r: Option<Vec<String>>)
    ensures
        value is None ==> r is None,
        value matches Some(v) ==> (r matches Some(out) && str_views(out@) == spec_lines(
            spec_trim(v@),
        )),
{
    let v = match value {
        Some(v) => v,
        None => {
            return None;
        },
    };
    let t = text::trim_str(v.as_str());
    let lines = text::split_lines(&t);
    let ghost lv = lines.deep_view();
    let n = lines.len();
    let mut out: Vec<String> = Vec::new();
    let mut i: usize = 0;
    proof {
        assert(str_views(out@) =~= lv.take(0));
    }
    while i < n
        invariant
            0 <= i <= n,
            n == lines@.len(),
            lv == lines.deep_view(),
            lv.len() == n,
            str_views(out@) == lv.take(i as int),
        decreases n - i,
    {
        proof {
            text::lemma_chars_deep_view(&lines@[i as int]);
        }
        let ghost old_out = str_views(out@);
        out.push(text::string_from_chars(&lines[i]));
        i += 1;
        proof {
            assert(str_views(out@) =~= old_out.push(lv[i - 1]));
            assert(str_views(out@) =~= lv.take(i as int));
        }
    }
    proof {
        assert(lv.take(n as int) =~= lv);
    }
    Some(out)
}

} // verus!
