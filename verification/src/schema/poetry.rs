//! The shapes of the Poetry manifest sections the conversion reads.

use crate::schema::utils::SingleOrVec;
use crate::strmap::StrMap;
use vstd::prelude::*;

verus! {

/// The priority Poetry gives a package source, in the order Poetry consults
/// them.
#[derive(Debug, Clone, Copy, PartialEq, Eq, Structural)]
pub enum SourcePriority {
    Default,
    Primary,
    Secondary,
    Supplemental,
    Explicit,
}

/// The position of a priority in Poetry's lookup order; an absent priority
/// counts as primary.
pub open spec fn spec_priority_rank(p: Option<SourcePriority>) -> u8 {
    match p {
        Some(SourcePriority::Default) => 0u8,
        Some(SourcePriority::Primary) => 1u8,
        None => 1u8,
        Some(SourcePriority::Secondary) => 2u8,
        Some(SourcePriority::Supplemental) => 3u8,
        Some(SourcePriority::Explicit) => 4u8,
    }
}

/// A `[[tool.poetry.source]]` entry.
#[derive(Debug, Clone, PartialEq, Eq)]
pub struct Source {
    pub name: String,
    pub url: Option<String>,
    pub priority: Option<SourcePriority>,
}

pub struct SourceV {
    pub name: Seq<char>,
    pub url: Option<Seq<char>>,
    pub priority: Option<SourcePriority>,
}

impl View for Source {
    type V = SourceV;

    open spec fn view(&self) -> SourceV {
        SourceV { name: self.name@, url: self.url.deep_view(), priority: self.priority }
    }
}

impl Default for Source {
    fn default() -> (r: Source)
        ensures
            r@.name == Seq::<char>::empty(),
            r@.url is None,
            r@.priority is None,
    {
        Source { name: String::new(), url: None, priority: None }
    }
}

/// A distribution kind a file can be shipped in.
#[derive(Debug, Clone, Copy, PartialEq, Eq, Structural)]
pub enum Format {
    Sdist,
    Wheel,
}

/// A `[[tool.poetry.packages]]` rule: a pattern to include, the directory it
/// lives under, the directory it should land in, and which distributions it
/// selects.
#[derive(Debug, Clone, PartialEq, Eq)]
pub struct Package {
    pub pattern: String,
    pub from: Option<String>,
    pub to: Option<String>,
    pub format: Option<SingleOrVec<Format>>,
}

/// A `tool.poetry.include` entry: a bare path, or a path with a distribution
/// selector.
#[derive(Debug, Clone, PartialEq, Eq)]
pub enum Include {
    Plain(String),
    Selected { path: String, format: Option<SingleOrVec<Format>> },
}

/// A `[tool.poetry.scripts]` entry.
#[derive(Debug, Clone, PartialEq, Eq)]
pub enum Script {
    Text(String),
    Callable { callable: Option<String> },
}

/// One dependency declaration: a bare constraint, a detailed table, or a list
/// of alternative variants.
#[derive(Debug, PartialEq, Eq)]
pub enum DependencySpecification {
    Text(String),
    Detail {
        version: Option<String>,
        extras: Option<Vec<String>>,
        markers: Option<String>,
        python: Option<String>,
        platform: Option<String>,
        source: Option<String>,
        url: Option<String>,
        path: Option<String>,
        develop: Option<bool>,
        git: Option<String>,
        branch: Option<String>,
        rev: Option<String>,
        tag: Option<String>,
        subdirectory: Option<String>,
    },
    Multi(Vec<DependencySpecification>),
}

/// A `[tool.poetry.group.<name>]` table.
pub struct PoetryGroup {
    pub dependencies: StrMap<DependencySpecification>,
    pub optional: Option<bool>,
}

} // verus!
