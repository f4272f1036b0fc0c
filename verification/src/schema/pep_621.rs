//! PEP 621 project fragments.

use crate::strmap::StrMap;
use vstd::prelude::*;

verus! {

/// An author or maintainer entry: a name, an address, or both.
#[derive(Debug, Clone, PartialEq, Eq)]
pub struct AuthorOrMaintainer {
    pub name: Option<String>,
    pub email: Option<String>,
}

/// A project license.
#[derive(Debug, Clone, PartialEq, Eq)]
pub enum License {
    Text(String),
}

/// The `[project]` table assembled by a conversion.
pub struct Project {
    pub name: Option<String>,
    pub version: Option<String>,
    pub description: Option<String>,
    pub authors: Option<Vec<AuthorOrMaintainer>>,
    pub requires_python: Option<String>,
    pub readme: Option<String>,
    pub license: Option<License>,
    pub maintainers: Option<Vec<AuthorOrMaintainer>>,
    pub keywords: Option<Vec<String>>,
    pub classifiers: Option<Vec<String>>,
    pub dependencies: Option<Vec<String>>,
    pub optional_dependencies: Option<StrMap<Vec<String>>>,
    pub urls: Option<StrMap<String>>,
    pub scripts: Option<StrMap<String>>,
    pub gui_scripts: Option<StrMap<String>>,
    pub entry_points: Option<StrMap<StrMap<String>>>,
}

} // verus!
