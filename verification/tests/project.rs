use migrate_to_uv::converters::poetry::project::{
    get_authors, get_classifiers, get_readme, get_scripts, get_urls, parse_author,
};
use migrate_to_uv::errors::MigrationErrors;
use migrate_to_uv::schema::poetry::Script;
use migrate_to_uv::schema::pyproject::BuildSystem;
use migrate_to_uv::schema::utils::SingleOrVec;
use migrate_to_uv::strmap::StrMap;

const PY_PREFIX: &str = "Programming Language :: Python";

fn poetry_build_system() -> BuildSystem {
    BuildSystem {
        requires: vec!["poetry-core".to_string()],
        build_backend: Some("poetry.core.masonry.api".to_string()),
    }
}

#[test]
fn test_get_readme_single() {
    let mut errors = MigrationErrors::new();
    let r = get_readme(Some(SingleOrVec::Single("README.md".to_string())), &mut errors);
    assert_eq!(r, Some("README.md".to_string()));
    assert!(errors.is_empty());
}

#[test]
fn test_get_readme_single_element_list() {
    let mut errors = MigrationErrors::new();
    let r = get_readme(Some(SingleOrVec::Many(vec!["README.md".to_string()])), &mut errors);
    assert_eq!(r, Some("README.md".to_string()));
    assert!(errors.is_empty());
}

#[test]
fn test_get_readme_multiple_is_ambiguous() {
    let mut errors = MigrationErrors::new();
    let readmes = vec!["README1.md".to_string(), "README2.md".to_string()];
    let r = get_readme(Some(SingleOrVec::Many(readmes)), &mut errors);
    assert!(r.is_none());
    assert_eq!(errors.len(), 1);
    // The field is omitted and the ambiguity is recoverable.
    assert!(errors.recoverable_at(0));
    assert!(errors.message_at(0).contains("\"README1.md\", \"README2.md\""));
    assert!(errors.message_at(0).contains("tool.poetry.readme"));
}

#[test]
fn test_parse_author_shapes() {
    let full = parse_author("Jane Doe <jane@example.com>").unwrap();
    assert_eq!(full.name.as_deref(), Some("Jane Doe"));
    assert_eq!(full.email.as_deref(), Some("jane@example.com"));

    let bare = parse_author("Jane Doe").unwrap();
    assert_eq!(bare.name.as_deref(), Some("Jane Doe"));
    assert_eq!(bare.email, None);

    assert!(parse_author("").is_none());
    assert!(parse_author("Jane<j@e>").is_none());
    assert!(parse_author("a>b").is_none());
    assert!(parse_author("Jane <>").is_none());
}

#[test]
fn test_get_authors() {
    let authors = vec!["Jane Doe <jane@example.com>".to_string(), "Bob".to_string()];
    let out = get_authors(Some(authors)).unwrap();
    assert_eq!(out.len(), 2);
    assert_eq!(out[0].email.as_deref(), Some("jane@example.com"));
    assert_eq!(out[1].name.as_deref(), Some("Bob"));
    assert!(get_authors(None).is_none());
}

#[test]
fn test_get_urls_override() {
    let mut poetry_urls: StrMap<String> = StrMap::new();
    poetry_urls.insert("Repository".to_string(), "https://example.com/override".to_string());
    poetry_urls.insert("Changelog".to_string(), "https://example.com/news".to_string());
    let urls = get_urls(
        Some(poetry_urls),
        Some("https://example.com".to_string()),
        Some("https://example.com/repo".to_string()),
        None,
    )
    .unwrap();
    assert_eq!(urls.get("Homepage"), Some(&"https://example.com".to_string()));
    // A free-form URL overrides the dedicated field on a name match, in place.
    assert_eq!(urls.get("Repository"), Some(&"https://example.com/override".to_string()));
    assert_eq!(urls.get("Changelog"), Some(&"https://example.com/news".to_string()));
    assert_eq!(urls.len(), 3);
    assert_eq!(urls.key_at(1).as_str(), "Repository");
}

#[test]
fn test_get_urls_empty() {
    assert!(get_urls(None, None, None, None).is_none());
}

#[test]
fn test_get_scripts() {
    let mut poetry_scripts: StrMap<Script> = StrMap::new();
    poetry_scripts.insert("run".to_string(), Script::Text("pkg:main".to_string()));
    poetry_scripts.insert(
        "tool".to_string(),
        Script::Callable { callable: Some("pkg:tool".to_string()) },
    );
    poetry_scripts.insert("ghost".to_string(), Script::Callable { callable: None });
    let mut plugins: StrMap<String> = StrMap::new();
    plugins.insert("extra".to_string(), "pkg:extra".to_string());
    let scripts = get_scripts(Some(poetry_scripts), Some(plugins)).unwrap();
    assert_eq!(scripts.len(), 3);
    assert_eq!(scripts.get("run"), Some(&"pkg:main".to_string()));
    assert_eq!(scripts.get("tool"), Some(&"pkg:tool".to_string()));
    assert!(scripts.get("ghost").is_none());
    assert_eq!(scripts.get("extra"), Some(&"pkg:extra".to_string()));
}

#[test]
fn test_classifiers_full_historical_set_without_constraint() {
    let bs = poetry_build_system();
    let out = get_classifiers(None, Some(&bs), None, None).unwrap();
    // Both legacy tags, the shared major tag, and every supported minor.
    assert_eq!(out.len(), 14);
    assert_eq!(out[0], format!("{PY_PREFIX} :: 2"));
    assert_eq!(out[1], format!("{PY_PREFIX} :: 2.7"));
    assert_eq!(out[2], format!("{PY_PREFIX} :: 3"));
    assert_eq!(out[3], format!("{PY_PREFIX} :: 3.4"));
    assert_eq!(out[13], format!("{PY_PREFIX} :: 3.14"));
}

#[test]
fn test_classifiers_from_constraint() {
    let bs = poetry_build_system();
    let out = get_classifiers(None, Some(&bs), Some(">=3.12,<3.14".to_string()), None).unwrap();
    assert_eq!(
        out,
        vec![
            format!("{PY_PREFIX} :: 3"),
            format!("{PY_PREFIX} :: 3.12"),
            format!("{PY_PREFIX} :: 3.13"),
        ]
    );
}

#[test]
fn test_classifiers_keep_declared_order_and_dedup() {
    let declared = vec![
        "Topic :: Software Development".to_string(),
        "Topic :: Software Development".to_string(),
    ];
    let out = get_classifiers(Some(declared), None, None, None).unwrap();
    // Without a build system nothing is synthesized, and duplicates drop.
    assert_eq!(out, vec!["Topic :: Software Development".to_string()]);
}

#[test]
fn test_classifiers_none_at_all() {
    assert!(get_classifiers(None, None, None, None).is_none());
}
