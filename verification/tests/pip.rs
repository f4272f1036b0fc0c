use migrate_to_uv::converters::pip::dependencies::get;
use migrate_to_uv::converters::pip::{parse_requirements_content, Pip};
use migrate_to_uv::converters::pipenv::{get_requires_python, Pipenv};
use migrate_to_uv::converters::{ConverterOptions, DependencyGroupsStrategy};
use migrate_to_uv::utils::{non_empty_vec, normalize_dependency_name};

fn options(dry_run: bool, ignore_locked: bool) -> ConverterOptions {
    ConverterOptions {
        project_path: ".".to_string(),
        dry_run,
        skip_lock: true,
        ignore_locked_versions: ignore_locked,
        keep_old_metadata: false,
        dependency_groups_strategy: DependencyGroupsStrategy::SetDefaultGroups,
        build_backend: None,
    }
}

fn pip(is_pip_tools: bool) -> Pip {
    Pip {
        converter_options: options(false, false),
        requirements_files: vec!["requirements.in".to_string()],
        dev_requirements_files: vec!["requirements-dev.in".to_string()],
        is_pip_tools,
    }
}

#[test]
fn test_requirements_parsing() {
    let content = "\n# a comment\nrequests == 2.31.0\n--index-url https://example.com\nflask>=2  # trailing words\nnot a requirement\n";
    let (deps, failed) = get(&vec![content.to_string()]);
    // The parsed form is normalized, not echoed.
    assert_eq!(deps.unwrap(), vec!["requests==2.31.0".to_string(), "flask>=2".to_string()]);
    assert_eq!(failed, vec!["not a requirement".to_string()]);
}

#[test]
fn test_requirements_parsing_empty() {
    let (deps, failed) = get(&vec!["# only a comment\n".to_string()]);
    assert!(deps.is_none());
    assert!(failed.is_empty());
}

#[test]
fn test_parse_requirements_content_references() {
    let content = "-r base.txt\n--requirement   extra.txt\n-e .\nclick==8.1.7\n";
    let parsed = parse_requirements_content(content);
    assert_eq!(parsed.nested, vec!["base.txt".to_string(), "extra.txt".to_string()]);
    assert_eq!(parsed.dependencies, vec!["click==8.1.7".to_string()]);
    assert!(parsed.failed.is_empty());
}

#[test]
fn test_pip_migrated_files_include_locked_ones() {
    let p = pip(true);
    assert_eq!(
        p.get_migrated_files_to_delete(),
        vec![
            "requirements.in".to_string(),
            "requirements.txt".to_string(),
            "requirements-dev.in".to_string(),
            "requirements-dev.txt".to_string(),
        ]
    );
    let plain = pip(false);
    assert_eq!(
        plain.get_migrated_files_to_delete(),
        vec!["requirements.in".to_string(), "requirements-dev.in".to_string()]
    );
}

#[test]
fn test_pip_constraint_files_and_dependencies() {
    let p = pip(true);
    assert_eq!(
        p.constraint_files(),
        vec!["requirements.txt".to_string(), "requirements-dev.txt".to_string()]
    );
    let locked = vec!["requests==2.31.0\n".to_string()];
    assert_eq!(
        p.get_constraint_dependencies(&locked),
        Some(vec!["requests==2.31.0".to_string()])
    );
    assert!(pip(false).get_constraint_dependencies(&locked).is_none());
    let mut dry = pip(true);
    dry.converter_options.dry_run = true;
    assert!(dry.get_constraint_dependencies(&locked).is_none());
}

#[test]
fn test_pip_names_and_options() {
    assert_eq!(pip(true).get_package_manager_name(), "pip-tools");
    assert_eq!(pip(false).get_package_manager_name(), "pip");
    assert!(pip(true).respect_locked_versions());
    assert!(!pip(false).respect_locked_versions());
    let mut p = pip(false);
    p.add_requirements_file("more.txt".to_string());
    p.add_dev_requirements_file("more-dev.txt".to_string());
    assert_eq!(p.requirements_files.last().unwrap(), "more.txt");
    assert_eq!(p.dev_requirements_files.last().unwrap(), "more-dev.txt");
}

#[test]
fn test_pipenv_basics() {
    let p = Pipenv { converter_options: options(true, true) };
    assert_eq!(p.get_package_manager_name(), "Pipenv");
    assert_eq!(
        p.get_migrated_files_to_delete(),
        vec!["Pipfile".to_string(), "Pipfile.lock".to_string()]
    );
}

#[test]
fn test_pipenv_requires_python() {
    assert_eq!(
        get_requires_python(None, Some("3.13.1".to_string())),
        Some("==3.13.1".to_string())
    );
    assert_eq!(get_requires_python(Some("3.11".to_string()), None), Some("==3.11".to_string()));
    assert_eq!(get_requires_python(None, None), None);
}

#[test]
fn test_normalize_dependency_name() {
    for name in [
        "friendly-bard",
        "Friendly-Bard",
        "FRIENDLY-BARD",
        "friendly.bard",
        "friendly_bard",
        "friendly--bard",
        "FrIeNdLy-._.-bArD",
    ] {
        assert_eq!(normalize_dependency_name(name), "friendly-bard");
    }
}

#[test]
fn test_non_empty_vec() {
    assert_eq!(non_empty_vec(Vec::<u64>::new()), None);
    assert_eq!(non_empty_vec(vec![1u64]), Some(vec![1u64]));
}
