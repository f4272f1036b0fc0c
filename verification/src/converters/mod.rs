//! The conversion engines, one per source package manager.

use vstd::prelude::*;

pub mod pip;
pub mod setuptools;
pub mod pipenv;
pub mod poetry;

verus! {

/// How grouped dependencies are laid out in the converted manifest.
#[derive(Debug, Clone, Copy, PartialEq, Eq, Structural)]
pub enum DependencyGroupsStrategy {
    SetDefaultGroups,
    SetDefaultGroupsAll,
    IncludeInDev,
    KeepExisting,
    MergeIntoDev,
}

/// The build backend a converted package is moved onto.
#[derive(Debug, Clone, Copy, PartialEq, Eq, Structural)]
pub enum BuildBackend {
    Hatch,
    Uv,
}

/// The options a conversion runs under.
#[derive(Debug, Clone, PartialEq, Eq)]
pub struct ConverterOptions {
    pub project_path: String,
    pub dry_run: bool,
    pub skip_lock: bool,
    pub ignore_locked_versions: bool,
    pub keep_old_metadata: bool,
    pub dependency_groups_strategy: DependencyGroupsStrategy,
    pub build_backend: Option<BuildBackend>,
}

impl ConverterOptions {
    /// Whether versions locked by the old package manager are kept.
    pub fn respect_locked_versions(&self) -> (r: bool)
        ensures
            r == !self.ignore_locked_versions,
    {
        !self.ignore_locked_versions
    }
}

/// The strategy a conversion runs under when none is asked for: with no
/// optional group every group can become a default, so the `all` sentinel is
/// chosen; an optional group forces the explicit default-group list.
pub fn effective_strategy(
    given: Option<DependencyGroupsStrategy>,
    any_optional_group: bool,
) -> (r: DependencyGroupsStrategy)
    ensures
        given matches Some(s) ==> r == s,
        given is None && !any_optional_group ==> r == DependencyGroupsStrategy::SetDefaultGroupsAll,
        given is None && any_optional_group ==> r == DependencyGroupsStrategy::SetDefaultGroups,
{
    match given {
        Some(s) => s,
        None => {
            if any_optional_group {
                DependencyGroupsStrategy::SetDefaultGroups
            } else {
                DependencyGroupsStrategy::SetDefaultGroupsAll
            }
        },
    }
}

} // verus!
