use migrate_to_uv::converters::poetry::dependencies::{
    get, get_dependency_groups_and_default_groups, get_optional,
};
use migrate_to_uv::converters::DependencyGroupsStrategy;
use migrate_to_uv::errors::MigrationErrors;
use migrate_to_uv::schema::poetry::{DependencySpecification, PoetryGroup};
use migrate_to_uv::schema::pyproject::DependencyGroupSpecification;
use migrate_to_uv::schema::utils::SingleOrVec;
use migrate_to_uv::schema::uv::SourceContainer;
use migrate_to_uv::strmap::StrMap;

fn text_dep(s: &str) -> DependencySpecification {
    DependencySpecification::Text(s.to_string())
}

fn detail() -> DependencySpecification {
    DependencySpecification::Detail {
        version: None,
        extras: None,
        markers: None,
        python: None,
        platform: None,
        source: None,
        url: None,
        path: None,
        develop: None,
        git: None,
        branch: None,
        rev: None,
        tag: None,
        subdirectory: None,
    }
}

#[test]
fn test_get_translates_each_dependency() {
    let mut deps: StrMap<DependencySpecification> = StrMap::new();
    deps.insert("arrow".to_string(), text_dep("^1.2.3"));
    deps.insert("six".to_string(), text_dep("*"));
    let mut sources: StrMap<SourceContainer> = StrMap::new();
    let mut errors = MigrationErrors::new();
    let out = get(Some(&deps), &mut sources, &mut errors).unwrap();
    assert_eq!(out, vec!["arrow>=1.2.3,<2".to_string(), "six".to_string()]);
    assert!(sources.is_empty());
    assert!(errors.is_empty());
}

#[test]
fn test_get_detail_with_marker_and_extras() {
    let dep = DependencySpecification::Detail {
        version: Some("^2.0".to_string()),
        extras: Some(vec!["tls".to_string(), "cli".to_string()]),
        markers: Some("extra == 'full'".to_string()),
        python: Some("^3.8".to_string()),
        platform: Some("linux".to_string()),
        source: None,
        url: None,
        path: None,
        develop: None,
        git: None,
        branch: None,
        rev: None,
        tag: None,
        subdirectory: None,
    };
    let mut deps: StrMap<DependencySpecification> = StrMap::new();
    deps.insert("requests".to_string(), dep);
    let mut sources: StrMap<SourceContainer> = StrMap::new();
    let mut errors = MigrationErrors::new();
    let out = get(Some(&deps), &mut sources, &mut errors).unwrap();
    assert_eq!(
        out,
        vec![
            "requests[tls,cli]>=2.0,<3 ; python_version >= '3.8' and python_version < '4' and sys_platform == 'linux' and extra == 'full'"
                .to_string()
        ]
    );
}

#[test]
fn test_get_detail_source_is_pinned() {
    let dep = DependencySpecification::Detail {
        version: None,
        extras: None,
        markers: None,
        python: None,
        platform: None,
        source: None,
        url: None,
        path: None,
        develop: None,
        git: Some("https://example.com/repo.git".to_string()),
        branch: Some("main".to_string()),
        rev: None,
        tag: None,
        subdirectory: None,
    };
    let mut deps: StrMap<DependencySpecification> = StrMap::new();
    deps.insert("mylib".to_string(), dep);
    let mut sources: StrMap<SourceContainer> = StrMap::new();
    let mut errors = MigrationErrors::new();
    let out = get(Some(&deps), &mut sources, &mut errors).unwrap();
    assert_eq!(out, vec!["mylib".to_string()]);
    match sources.get("mylib").unwrap() {
        SourceContainer::SourceIndex(si) => {
            assert_eq!(si.git, Some("https://example.com/repo.git".to_string()));
            assert_eq!(si.branch, Some("main".to_string()));
        }
        _ => panic!("expected a single source"),
    }
}

#[test]
fn test_get_multi_variant_with_sources_keeps_markers_on_sources() {
    let variant = |platform: &str| DependencySpecification::Detail {
        version: None,
        extras: None,
        markers: None,
        python: None,
        platform: Some(platform.to_string()),
        source: None,
        url: Some(format!("https://example.com/{platform}.whl")),
        path: None,
        develop: None,
        git: None,
        branch: None,
        rev: None,
        tag: None,
        subdirectory: None,
    };
    let dep = DependencySpecification::Multi(vec![variant("linux"), variant("darwin")]);
    let mut deps: StrMap<DependencySpecification> = StrMap::new();
    deps.insert("torch".to_string(), dep);
    let mut sources: StrMap<SourceContainer> = StrMap::new();
    let mut errors = MigrationErrors::new();
    let out = get(Some(&deps), &mut sources, &mut errors).unwrap();
    assert_eq!(out, vec!["torch".to_string()]);
    match sources.get("torch").unwrap() {
        SourceContainer::SourceIndexes(variants) => {
            assert_eq!(variants.len(), 2);
            assert_eq!(variants[0].marker, Some("sys_platform == 'linux'".to_string()));
            assert_eq!(variants[1].marker, Some("sys_platform == 'darwin'".to_string()));
        }
        _ => panic!("expected variant sources"),
    }
}

#[test]
fn test_get_multi_variant_without_sources_lists_each_variant() {
    let dep = DependencySpecification::Multi(vec![text_dep("^1.0"), text_dep("^2.0")]);
    let mut deps: StrMap<DependencySpecification> = StrMap::new();
    deps.insert("lib".to_string(), dep);
    let mut sources: StrMap<SourceContainer> = StrMap::new();
    let mut errors = MigrationErrors::new();
    let out = get(Some(&deps), &mut sources, &mut errors).unwrap();
    assert_eq!(out, vec!["lib>=1.0,<2".to_string(), "lib>=2.0,<3".to_string()]);
    assert!(sources.is_empty());
}

#[test]
fn test_get_collects_translation_failures() {
    let mut deps: StrMap<DependencySpecification> = StrMap::new();
    deps.insert("bad".to_string(), text_dep("^1.0||^2.0"));
    let mut sources: StrMap<SourceContainer> = StrMap::new();
    let mut errors = MigrationErrors::new();
    let out = get(Some(&deps), &mut sources, &mut errors);
    assert!(out.is_none());
    assert_eq!(errors.len(), 1);
    assert!(errors.message_at(0).contains("bad"));
    assert!(errors.message_at(0).contains("||"));
    assert!(!errors.recoverable_at(0));
}

#[test]
fn test_get_optional_claims_and_removes_dependencies() {
    let mut deps: StrMap<DependencySpecification> = StrMap::new();
    deps.insert("Click".to_string(), text_dep("^8.0"));
    deps.insert("arrow".to_string(), text_dep("^1.0"));
    let mut pd = Some(deps);
    let mut extras: StrMap<Vec<String>> = StrMap::new();
    extras.insert("cli".to_string(), vec!["click".to_string(), "unknown".to_string()]);
    let mut errors = MigrationErrors::new();
    let out = get_optional(&mut pd, Some(extras), &mut errors).unwrap();
    let cli = out.get("cli").unwrap();
    assert_eq!(cli, &vec!["Click>=8.0,<9".to_string()]);
    // The unknown reference is reported, recoverably, and dropped.
    assert_eq!(errors.len(), 1);
    assert!(errors.recoverable_at(0));
    assert!(errors.message_at(0).contains("unknown"));
    assert!(errors.message_at(0).contains("cli"));
    // The claimed dependency leaves the main table; the other stays.
    let remaining = pd.unwrap();
    assert!(remaining.get("Click").is_none());
    assert!(remaining.get("arrow").is_some());
}

#[test]
fn test_get_optional_without_extras() {
    let mut pd = Some(StrMap::<DependencySpecification>::new());
    let mut errors = MigrationErrors::new();
    assert!(get_optional(&mut pd, None, &mut errors).is_none());
    assert!(errors.is_empty());
}

fn group_of(deps: &[(&str, &str)], optional: Option<bool>) -> PoetryGroup {
    let mut m: StrMap<DependencySpecification> = StrMap::new();
    for (name, constraint) in deps {
        m.insert(name.to_string(), text_dep(constraint));
    }
    PoetryGroup { dependencies: m, optional }
}

#[test]
fn test_merge_into_dev_moves_non_optional_group() {
    let mut groups: StrMap<PoetryGroup> = StrMap::new();
    groups.insert("typing".to_string(), group_of(&[("mypy", "^1.13")], None));
    let mut sources: StrMap<SourceContainer> = StrMap::new();
    let mut errors = MigrationErrors::new();
    let (out, selector) = get_dependency_groups_and_default_groups(
        None,
        Some(&groups),
        &mut sources,
        &mut errors,
        DependencyGroupsStrategy::MergeIntoDev,
    );
    let out = out.unwrap();
    assert!(out.get("typing").is_none());
    let dev = out.get("dev").unwrap();
    assert_eq!(dev.len(), 1);
    match &dev[0] {
        DependencyGroupSpecification::Text(t) => assert_eq!(t, "mypy>=1.13,<2"),
        _ => panic!("expected a literal entry"),
    }
    assert!(selector.is_none());
}

#[test]
fn test_merge_into_dev_keeps_optional_group() {
    let mut groups: StrMap<PoetryGroup> = StrMap::new();
    groups.insert("docs".to_string(), group_of(&[("sphinx", "^7.0")], Some(true)));
    let mut sources: StrMap<SourceContainer> = StrMap::new();
    let mut errors = MigrationErrors::new();
    let (out, _) = get_dependency_groups_and_default_groups(
        None,
        Some(&groups),
        &mut sources,
        &mut errors,
        DependencyGroupsStrategy::MergeIntoDev,
    );
    let out = out.unwrap();
    assert!(out.get("docs").is_some());
    assert!(out.get("dev").is_none());
}

#[test]
fn test_set_default_groups_lists_non_optional_groups() {
    let mut dev_deps: StrMap<DependencySpecification> = StrMap::new();
    dev_deps.insert("pytest".to_string(), text_dep("^8.0"));
    let mut groups: StrMap<PoetryGroup> = StrMap::new();
    groups.insert("typing".to_string(), group_of(&[("mypy", "*")], None));
    groups.insert("docs".to_string(), group_of(&[("sphinx", "*")], Some(true)));
    let mut sources: StrMap<SourceContainer> = StrMap::new();
    let mut errors = MigrationErrors::new();
    let (out, selector) = get_dependency_groups_and_default_groups(
        Some(&dev_deps),
        Some(&groups),
        &mut sources,
        &mut errors,
        DependencyGroupsStrategy::SetDefaultGroups,
    );
    let out = out.unwrap();
    assert!(out.get("dev").is_some());
    assert!(out.get("typing").is_some());
    assert!(out.get("docs").is_some());
    match selector {
        Some(SingleOrVec::Many(names)) => {
            assert_eq!(names, vec!["dev".to_string(), "typing".to_string()]);
        }
        _ => panic!("expected a list of default groups"),
    }
}

#[test]
fn test_set_default_groups_omits_override_for_lone_dev() {
    let mut dev_deps: StrMap<DependencySpecification> = StrMap::new();
    dev_deps.insert("pytest".to_string(), text_dep("*"));
    let mut sources: StrMap<SourceContainer> = StrMap::new();
    let mut errors = MigrationErrors::new();
    let empty_groups: StrMap<PoetryGroup> = StrMap::new();
    let (out, selector) = get_dependency_groups_and_default_groups(
        Some(&dev_deps),
        Some(&empty_groups),
        &mut sources,
        &mut errors,
        DependencyGroupsStrategy::SetDefaultGroups,
    );
    assert!(out.unwrap().get("dev").is_some());
    assert!(selector.is_none());
}

#[test]
fn test_set_default_groups_all_with_optional_group_is_an_error() {
    let mut groups: StrMap<PoetryGroup> = StrMap::new();
    groups.insert("docs".to_string(), group_of(&[("sphinx", "*")], Some(true)));
    let mut sources: StrMap<SourceContainer> = StrMap::new();
    let mut errors = MigrationErrors::new();
    let (_, selector) = get_dependency_groups_and_default_groups(
        None,
        Some(&groups),
        &mut sources,
        &mut errors,
        DependencyGroupsStrategy::SetDefaultGroupsAll,
    );
    match selector {
        Some(SingleOrVec::Single(s)) => assert_eq!(s, "all"),
        _ => panic!("expected the all sentinel"),
    }
    assert_eq!(errors.len(), 1);
    assert!(!errors.recoverable_at(0));
    assert!(errors.message_at(0).contains("set-default-groups-all"));
}

#[test]
fn test_include_in_dev_references_groups() {
    let mut groups: StrMap<PoetryGroup> = StrMap::new();
    groups.insert("typing".to_string(), group_of(&[("mypy", "*")], None));
    groups.insert("docs".to_string(), group_of(&[("sphinx", "*")], Some(true)));
    let mut sources: StrMap<SourceContainer> = StrMap::new();
    let mut errors = MigrationErrors::new();
    let (out, selector) = get_dependency_groups_and_default_groups(
        None,
        Some(&groups),
        &mut sources,
        &mut errors,
        DependencyGroupsStrategy::IncludeInDev,
    );
    let out = out.unwrap();
    let dev = out.get("dev").unwrap();
    assert_eq!(dev.len(), 1);
    match &dev[0] {
        DependencyGroupSpecification::IncludeGroup { include_group } => {
            assert_eq!(include_group.as_deref(), Some("typing"));
        }
        _ => panic!("expected an include-group reference"),
    }
    assert!(selector.is_none());
}

#[test]
fn test_keep_existing_passes_groups_through() {
    let mut groups: StrMap<PoetryGroup> = StrMap::new();
    groups.insert("typing".to_string(), group_of(&[("mypy", "*")], None));
    let mut sources: StrMap<SourceContainer> = StrMap::new();
    let mut errors = MigrationErrors::new();
    let (out, selector) = get_dependency_groups_and_default_groups(
        None,
        Some(&groups),
        &mut sources,
        &mut errors,
        DependencyGroupsStrategy::KeepExisting,
    );
    let out = out.unwrap();
    assert!(out.get("typing").is_some());
    assert!(out.get("dev").is_none());
    assert!(selector.is_none());
}
