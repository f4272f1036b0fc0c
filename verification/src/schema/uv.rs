//! The shapes of the `[tool.uv]` fragments the conversion produces.

use crate::schema::utils::SingleOrVec;
use crate::strmap::StrMap;
use vstd::prelude::*;

verus! {

/// An entry of `tool.uv.index`.
#[derive(Debug, Clone, PartialEq, Eq)]
pub struct Index {
    pub name: String,
    pub url: Option<String>,
    pub default: Option<bool>,
    pub explicit: Option<bool>,
}

pub struct IndexV {
    pub name: Seq<char>,
    pub url: Option<Seq<char>>,
    pub default: Option<bool>,
    pub explicit: Option<bool>,
}

impl View for Index {
    type V = IndexV;

    open spec fn view(&self) -> IndexV {
        IndexV {
            name: self.name@,
            url: self.url.deep_view(),
            default: self.default,
            explicit: self.explicit,
        }
    }
}

impl Default for Index {
    fn default() -> (r: Index)
        ensures
            r@.name == Seq::<char>::empty(),
            r@.url is None,
            r@.default is None,
            r@.explicit is None,
    {
        Index { name: String::new(), url: None, default: None, explicit: None }
    }
}

/// One pinned source of a dependency under `tool.uv.sources`.
#[derive(Debug, Clone, PartialEq, Eq)]
pub struct SourceIndex {
    pub index: Option<String>,
    pub path: Option<String>,
    pub editable: Option<bool>,
    pub git: Option<String>,
    pub tag: Option<String>,
    pub branch: Option<String>,
    pub rev: Option<String>,
    pub subdirectory: Option<String>,
    pub url: Option<String>,
    pub marker: Option<String>,
}

pub struct SourceIndexV {
    pub index: Option<Seq<char>>,
    pub path: Option<Seq<char>>,
    pub editable: Option<bool>,
    pub git: Option<Seq<char>>,
    pub tag: Option<Seq<char>>,
    pub branch: Option<Seq<char>>,
    pub rev: Option<Seq<char>>,
    pub subdirectory: Option<Seq<char>>,
    pub url: Option<Seq<char>>,
    pub marker: Option<Seq<char>>,
}

impl View for SourceIndex {
    type V = SourceIndexV;

    open spec fn view(&self) -> SourceIndexV {
        SourceIndexV {
            index: self.index.deep_view(),
            path: self.path.deep_view(),
            editable: self.editable,
            git: self.git.deep_view(),
            tag: self.tag.deep_view(),
            branch: self.branch.deep_view(),
            rev: self.rev.deep_view(),
            subdirectory: self.subdirectory.deep_view(),
            url: self.url.deep_view(),
            marker: self.marker.deep_view(),
        }
    }
}

impl DeepView for SourceIndex {
    type V = SourceIndexV;

    open spec fn deep_view(&self) -> SourceIndexV {
        self.view()
    }
}

/// The view of a source index with nothing set.
pub open spec fn empty_source_index() -> SourceIndexV {
    SourceIndexV {
        index: None,
        path: None,
        editable: None,
        git: None,
        tag: None,
        branch: None,
        rev: None,
        subdirectory: None,
        url: None,
        marker: None,
    }
}

impl Default for SourceIndex {
    fn default() -> (r: SourceIndex)
        ensures
            r@ == empty_source_index(),
    {
        SourceIndex {
            index: None,
            path: None,
            editable: None,
            git: None,
            tag: None,
            branch: None,
            rev: None,
            subdirectory: None,
            url: None,
            marker: None,
        }
    }
}

/// A dependency's sources: one, or one per variant.
#[derive(Debug, Clone, PartialEq, Eq)]
pub enum SourceContainer {
    SourceIndex(SourceIndex),
    SourceIndexes(Vec<SourceIndex>),
}

pub enum SourceContainerV {
    One(SourceIndexV),
    Many(Seq<SourceIndexV>),
}

impl View for SourceContainer {
    type V = SourceContainerV;

    open spec fn view(&self) -> SourceContainerV {
        match self {
            SourceContainer::SourceIndex(si) => SourceContainerV::One(si@),
            SourceContainer::SourceIndexes(v) => SourceContainerV::Many(
                v@.map_values(|x: SourceIndex| x@),
            ),
        }
    }
}

impl DeepView for SourceContainer {
    type V = SourceContainerV;

    open spec fn deep_view(&self) -> SourceContainerV {
        self.view()
    }
}

/// The whole `[tool.uv]` fragment.
pub struct Uv {
    pub package: Option<bool>,
    pub index: Option<Vec<Index>>,
    pub sources: Option<StrMap<SourceContainer>>,
    pub default_groups: Option<SingleOrVec<String>>,
    pub constraint_dependencies: Option<Vec<String>>,
    pub build_backend: Option<UvBuildBackend>,
}

/// The `[tool.uv.build-backend]` fragment.
#[derive(Debug, Clone, PartialEq, Eq)]
pub struct UvBuildBackend {
    pub module_name: Option<SingleOrVec<String>>,
    pub module_root: Option<String>,
    pub namespace: Option<bool>,
    pub data: Option<UvBuildBackendData>,
    pub default_excludes: Option<bool>,
    pub source_exclude: Option<Vec<String>>,
    pub source_include: Option<Vec<String>>,
    pub wheel_exclude: Option<Vec<String>>,
}

impl Default for UvBuildBackend {
    fn default() -> (r: UvBuildBackend)
        ensures
            r.module_name is None,
            r.module_root is None,
            r.namespace is None,
            r.data is None,
            r.default_excludes is None,
            r.source_exclude is None,
            r.source_include is None,
            r.wheel_exclude is None,
    {
        UvBuildBackend {
            module_name: None,
            module_root: None,
            namespace: None,
            data: None,
            default_excludes: None,
            source_exclude: None,
            source_include: None,
            wheel_exclude: None,
        }
    }
}

/// The `data` table of the uv build backend.
#[derive(Debug, Clone, PartialEq, Eq)]
pub struct UvBuildBackendData {
    pub data: Option<String>,
    pub headers: Option<String>,
    pub platlib: Option<String>,
    pub purelib: Option<String>,
    pub scripts: Option<String>,
}

} // verus!
