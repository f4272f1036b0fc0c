use migrate_to_uv::converters::setuptools::dependencies::get_optional;
use migrate_to_uv::converters::setuptools::project::{get_authors, get_urls, get_version};
use migrate_to_uv::converters::setuptools::{
    get_comma_separated_value, get_multi_line_value, get_with_alias, Setuptools,
};
use migrate_to_uv::converters::{ConverterOptions, DependencyGroupsStrategy};
use migrate_to_uv::iniconf::{ini_get, ini_section_pairs, parse_ini};

#[test]
fn test_get_version() {
    assert_eq!(get_version(Some("1.2.3".to_string())), "1.2.3");
    assert_eq!(get_version(Some("attr: pkg.__version__".to_string())), "0.0.1");
    assert_eq!(get_version(Some("file: VERSION".to_string())), "0.0.1");
    assert_eq!(get_version(None), "0.0.1");
}

#[test]
fn test_get_authors_single_entry() {
    let out = get_authors(Some("Jane".to_string()), None).unwrap();
    assert_eq!(out.len(), 1);
    assert_eq!(out[0].name.as_deref(), Some("Jane"));
    assert_eq!(out[0].email, None);
    assert!(get_authors(None, None).is_none());
}

#[test]
fn test_get_urls_is_empty() {
    assert!(get_urls().is_none());
}

#[test]
fn test_comma_and_multiline_values() {
    let keywords = get_comma_separated_value(Some("packaging, dependency , migration".to_string()));
    assert_eq!(
        keywords.unwrap(),
        vec!["packaging".to_string(), "dependency".to_string(), "migration".to_string()]
    );
    let deps = get_multi_line_value(Some("\nrequests\nflask>=2\n".to_string()));
    assert_eq!(deps.unwrap(), vec!["requests".to_string(), "flask>=2".to_string()]);
    assert!(get_comma_separated_value(None).is_none());
    assert!(get_multi_line_value(None).is_none());
}

#[test]
fn test_get_optional_groups() {
    let extras = vec![("docs".to_string(), Some("\nsphinx\nmyst-parser\n".to_string()))];
    let out = get_optional(extras).unwrap();
    let docs = out.get("docs").unwrap();
    assert_eq!(docs, &vec!["sphinx".to_string(), "myst-parser".to_string()]);
    assert!(get_optional(Vec::new()).is_none());
}

#[test]
fn test_ini_parsing_and_lookup() {
    let cfg = "[metadata]\nname = demo\nsummary = A demo\n\n[options]\npython_requires = >=3.9\n";
    let ini = parse_ini(cfg).unwrap();
    assert_eq!(ini_get(&ini, "metadata", "name"), Some("demo".to_string()));
    assert_eq!(ini_get(&ini, "options", "python_requires"), Some(">=3.9".to_string()));
    assert_eq!(ini_get(&ini, "metadata", "missing"), None);
    assert_eq!(
        get_with_alias(&ini, "metadata", "description", "summary"),
        Some("A demo".to_string())
    );
}

#[test]
fn test_ini_section_pairs() {
    let cfg = "[options.extras_require]\ndocs =\n    sphinx\ncli =\n    click\n";
    let ini = parse_ini(cfg).unwrap();
    let mut pairs = ini_section_pairs(&ini, "options.extras_require").unwrap();
    pairs.sort_by(|a, b| a.0.cmp(&b.0));
    assert_eq!(pairs.len(), 2);
    assert_eq!(pairs[0].0, "cli");
    assert!(pairs[0].1.as_deref().unwrap().contains("click"));
    assert!(ini_section_pairs(&ini, "nonexistent").is_none());
}

#[test]
fn test_setuptools_basics() {
    let s = Setuptools {
        converter_options: ConverterOptions {
            project_path: ".".to_string(),
            dry_run: false,
            skip_lock: true,
            ignore_locked_versions: false,
            keep_old_metadata: false,
            dependency_groups_strategy: DependencyGroupsStrategy::SetDefaultGroups,
            build_backend: None,
        },
    };
    assert_eq!(s.get_package_manager_name(), "Setuptools");
    assert_eq!(
        s.get_migrated_files_to_delete(),
        vec!["setup.cfg".to_string(), "setup.py".to_string()]
    );
    assert!(s.get_constraint_dependencies().is_none());
}
