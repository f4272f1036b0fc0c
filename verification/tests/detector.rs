use migrate_to_uv::detector::{get_converter, PackageManager, ProjectProbe};

fn probe(pyproject: bool, poetry_section: bool, pipfile: bool) -> ProjectProbe {
    ProjectProbe {
        path_exists: true,
        is_dir: true,
        pyproject_exists: pyproject,
        pyproject_has_poetry_section: poetry_section,
        pipfile_exists: pipfile,
    }
}

#[test]
fn test_pipenv_err() {
    let converter = get_converter(
        "tests/fixtures/pipenv",
        probe(false, false, false),
        Some(PackageManager::Pipenv),
    );
    assert_eq!(converter.unwrap_err(), "Directory does not contain a Pipfile file.");
}

#[test]
fn test_auto_detect_prefers_poetry() {
    let converter = get_converter(".", probe(true, true, true), None);
    assert_eq!(converter.unwrap(), PackageManager::Poetry);
}

#[test]
fn test_auto_detect_falls_back_to_pipenv() {
    let converter = get_converter(".", probe(true, false, true), None);
    assert_eq!(converter.unwrap(), PackageManager::Pipenv);
}

#[test]
fn test_auto_detect_nothing() {
    let converter = get_converter(".", probe(true, false, false), None);
    assert_eq!(
        converter.unwrap_err(),
        "Could not determine which package manager is used from the ones that are supported."
    );
}

#[test]
fn test_enforced_poetry_without_section() {
    let converter = get_converter(".", probe(true, false, false), Some(PackageManager::Poetry));
    assert_eq!(
        converter.unwrap_err(),
        "pyproject.toml does not contain a [tool.poetry] section."
    );
}

#[test]
fn test_enforced_poetry_without_manifest() {
    let converter = get_converter(".", probe(false, false, true), Some(PackageManager::Poetry));
    assert_eq!(converter.unwrap_err(), "Directory does not contain a pyproject.toml file.");
}

#[test]
fn test_missing_path_and_non_directory() {
    let mut p = probe(true, true, true);
    p.path_exists = false;
    assert_eq!(get_converter("/nowhere", p, None).unwrap_err(), "/nowhere does not exist.");
    let mut p = probe(true, true, true);
    p.is_dir = false;
    assert_eq!(
        get_converter("pyproject.toml", p, None).unwrap_err(),
        "pyproject.toml is not a directory."
    );
}
