//! Fragments of `pyproject.toml` outside the project table.

use vstd::prelude::*;

verus! {

/// The `[build-system]` table.
#[derive(Debug, Clone, PartialEq, Eq)]
pub struct BuildSystem {
    pub requires: Vec<String>,
    pub build_backend: Option<String>,
}

/// An entry of a dependency group: a dependency string, or a reference that
/// pulls another group in.
#[derive(Debug, Clone, PartialEq, Eq)]
pub enum DependencyGroupSpecification {
    Text(String),
    IncludeGroup { include_group: Option<String> },
}

pub enum DependencyGroupSpecificationV {
    Text(Seq<char>),
    IncludeGroup(Option<Seq<char>>),
}

impl View for DependencyGroupSpecification {
    type V = DependencyGroupSpecificationV;

    open spec fn view(&self) -> DependencyGroupSpecificationV {
        match self {
            DependencyGroupSpecification::Text(t) => DependencyGroupSpecificationV::Text(t@),
            DependencyGroupSpecification::IncludeGroup { include_group } =>
                DependencyGroupSpecificationV::IncludeGroup(include_group.deep_view()),
        }
    }
}

impl DeepView for DependencyGroupSpecification {
    type V = DependencyGroupSpecificationV;

    open spec fn deep_view(&self) -> DependencyGroupSpecificationV {
        self.view()
    }
}

} // verus!
