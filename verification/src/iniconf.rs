//! Trusted view of the INI parser.
//!
//! A parsed `setup.cfg` is held as a `configparser` document. The document is
//! opaque; its contents carry the name `ini_view`, a map from section name to
//! key to optional value, keyed by the case-folded names the parser stores.

use configparser::ini::Ini;
use vstd::prelude::*;

verus! {

#[verifier::external_type_specification]
#[verifier::external_body]
pub struct ExIni(Ini);

/// The sections of a parsed document: section name, then key, to the key's
/// optional value, under the parser's case-folded names.
pub uninterp spec fn ini_view(i: Ini) -> Map<Seq<char>, Map<Seq<char>, Option<Seq<char>>>>;

/// What the multi-line INI parse of a document holds, when it parses.
pub uninterp spec fn ini_parse(s: Seq<char>) -> Option<
    Map<Seq<char>, Map<Seq<char>, Option<Seq<char>>>>,
>;

/// Whether a name is ASCII with no uppercase letter, so that the parser's
/// Unicode case folding leaves it unchanged.
pub open spec fn ascii_folded(s: Seq<char>) -> bool {
    forall|i: int| 0 <= i < s.len() ==> (s[i] as u32) < 128 && !('A' <= s[i] && s[i] <= 'Z')
}

/// The value of a key in a section, if both are present.
pub open spec fn ini_lookup(
    m: Map<Seq<char>, Map<Seq<char>, Option<Seq<char>>>>,
    section: Seq<char>,
    key: Seq<char>,
) -> Option<Seq<char>> {
    if m.contains_key(section) && m[section].contains_key(key) {
        m[section][key]
    } else {
        None
    }
}

/// Relies on `configparser::ini::Ini::new`, `Ini::set_multiline` and
/// `Ini::read`: parse a document with multi-line values allowed.
#[verifier::external_body]
pub fn parse_ini(content: &str) -> (r: Option<Ini>)
    ensures
        r is Some <==> ini_parse(content@) is Some,
        r matches Some(i) ==> ini_parse(content@) == Some(ini_view(i)),
{
    let mut config = Ini::new();
    config.set_multiline(true);
    match config.read(content.to_string()) {
        Ok(_) => Some(config),
        Err(_) => None,
    }
}

/// Relies on `configparser::ini::Ini::get`: the value of a key in a section.
/// The parser folds section and key names to lower case (full Unicode case
/// folding) when it stores and looks them up, so the names handed in must
/// already be in that form: ASCII with no uppercase letter.
#[verifier::external_body]
pub fn ini_get(config: &Ini, section: &str, key: &str) -> (r: Option<String>)
    requires
        ascii_folded(section@),
        ascii_folded(key@),
    ensures
        r.deep_view() == ini_lookup(ini_view(*config), section@, key@),
{
    config.get(section, key)
}

/// Relies on `configparser::ini::Ini::get_map`: the entries of one section,
/// looked up by the folded name the parser stores, so the section name must be
/// ASCII with no uppercase letter. The underlying map fixes no order, so only
/// the collection of pairs is stated: distinct keys, each a key of the section
/// with its value, and every key of the section among them.
#[verifier::external_body]
pub fn ini_section_pairs(config: &Ini, section: &str) -> (r: Option<Vec<(String, Option<String>)>>)
    requires
        ascii_folded(section@),
    ensures
        r is Some <==> ini_view(*config).contains_key(section@),
        r matches Some(v) ==> {
            &&& (forall|j: int|
                0 <= j < v@.len() ==> ini_view(*config)[section@].contains_key(
                    (#[trigger] v@[j]).0@,
                ) && ini_view(*config)[section@][v@[j].0@] == v@[j].1.deep_view())
            &&& (forall|k: Seq<char>|
                #[trigger] ini_view(*config)[section@].contains_key(k) ==> exists|j: int|
                    0 <= j < v@.len() && v@[j].0@ == k)
            &&& (forall|a: int, b: int| 0 <= a < b < v@.len() ==> v@[a].0@ != v@[b].0@)
        },
{
    let map = config.get_map()?;
    let section_map = map.get(section)?;
    Some(section_map.iter().map(|(k, val)| (k.clone(), val.clone())).collect())
}

} // verus!
