use migrate_to_uv::converters::poetry::dependencies::get_constraint_dependencies;
use migrate_to_uv::converters::poetry::Poetry;
use migrate_to_uv::converters::{effective_strategy, ConverterOptions, DependencyGroupsStrategy};

fn options(ignore_locked: bool) -> ConverterOptions {
    ConverterOptions {
        project_path: ".".to_string(),
        dry_run: false,
        skip_lock: true,
        ignore_locked_versions: ignore_locked,
        keep_old_metadata: false,
        dependency_groups_strategy: DependencyGroupsStrategy::SetDefaultGroups,
        build_backend: None,
    }
}

#[test]
fn test_poetry_converter_basics() {
    let poetry = Poetry { converter_options: options(false) };
    assert_eq!(poetry.get_package_manager_name(), "Poetry");
    assert_eq!(
        poetry.get_migrated_files_to_delete(),
        vec!["poetry.lock".to_string(), "poetry.toml".to_string()]
    );
    assert_eq!(poetry.get_converter_options(), &options(false));
}

#[test]
fn test_converter_options_respect_locked_versions() {
    assert!(options(false).respect_locked_versions());
    assert!(!options(true).respect_locked_versions());
}

#[test]
fn test_effective_strategy_default() {
    assert_eq!(
        effective_strategy(None, false),
        DependencyGroupsStrategy::SetDefaultGroupsAll
    );
    assert_eq!(effective_strategy(None, true), DependencyGroupsStrategy::SetDefaultGroups);
    assert_eq!(
        effective_strategy(Some(DependencyGroupsStrategy::MergeIntoDev), false),
        DependencyGroupsStrategy::MergeIntoDev
    );
}

#[test]
fn test_get_constraint_dependencies_pins_locked_packages() {
    let locked = vec![
        ("arrow".to_string(), "1.2.3".to_string()),
        ("six".to_string(), "1.15.0".to_string()),
    ];
    assert_eq!(
        get_constraint_dependencies(false, &locked),
        Some(vec!["arrow==1.2.3".to_string(), "six==1.15.0".to_string()])
    );
    assert_eq!(get_constraint_dependencies(true, &locked), None);
    assert_eq!(get_constraint_dependencies(false, &Vec::new()), None);
}
