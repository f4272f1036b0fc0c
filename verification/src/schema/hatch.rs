//! The shapes of the `[tool.hatch]` fragments the conversion produces.

use crate::strmap::StrMap;
use vstd::prelude::*;

verus! {

/// One hatch build target: what it includes, force-includes, excludes, and
/// which directories it rewrites.
#[derive(Debug)]
pub struct BuildTarget {
    pub includes: Option<Vec<String>>,
    pub force_include: Option<StrMap<String>>,
    pub exclude: Option<Vec<String>>,
    pub sources: Option<StrMap<String>>,
}

/// The `[tool.hatch.build]` table: the targets keyed by distribution name.
#[derive(Debug)]
pub struct Build {
    pub targets: Option<StrMap<BuildTarget>>,
}

/// The whole `[tool.hatch]` fragment.
#[derive(Debug)]
pub struct Hatch {
    pub build: Option<Build>,
}

} // verus!
