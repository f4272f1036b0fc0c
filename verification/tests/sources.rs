use migrate_to_uv::converters::poetry::sources::{get_indexes, get_source_index};
use migrate_to_uv::schema::poetry::{DependencySpecification, Source, SourcePriority};
use migrate_to_uv::schema::uv::Index;

#[test]
fn test_get_indexes_single_source_primary() {
    let sources = vec![Source {
        name: "foo".to_string(),
        url: Some("http://foo.bar".to_string()),
        priority: Some(SourcePriority::Primary),
    }];

    let expected = vec![Index {
        name: "foo".to_string(),
        url: Some("http://foo.bar".to_string()),
        default: Some(true),
        ..Default::default()
    }];

    assert_eq!(get_indexes(Some(sources)), Some(expected));
}

#[test]
fn test_get_indexes_single_source_default() {
    let sources = vec![Source {
        name: "foo".to_string(),
        url: Some("http://foo.bar".to_string()),
        priority: Some(SourcePriority::Default),
    }];

    let expected = vec![Index {
        name: "foo".to_string(),
        url: Some("http://foo.bar".to_string()),
        default: Some(true),
        ..Default::default()
    }];

    assert_eq!(get_indexes(Some(sources)), Some(expected));
}

#[test]
fn test_get_indexes_single_source_no_priority() {
    let sources = vec![Source {
        name: "foo".to_string(),
        url: Some("http://foo.bar".to_string()),
        ..Default::default()
    }];

    let expected = vec![Index {
        name: "foo".to_string(),
        url: Some("http://foo.bar".to_string()),
        default: Some(true),
        ..Default::default()
    }];

    assert_eq!(get_indexes(Some(sources)), Some(expected));
}

#[test]
fn test_get_indexes_single_source_primary_pypi() {
    let sources = vec![Source {
        name: "PyPI".to_string(),
        priority: Some(SourcePriority::Primary),
        ..Default::default()
    }];

    assert_eq!(get_indexes(Some(sources)), None);
}

#[test]
fn test_get_indexes_single_source_default_pypi() {
    let sources = vec![Source {
        name: "PyPI".to_string(),
        priority: Some(SourcePriority::Default),
        ..Default::default()
    }];

    assert_eq!(get_indexes(Some(sources)), None);
}

#[test]
fn test_get_indexes_single_source_no_priority_pypi() {
    let sources = vec![Source {
        name: "PyPI".to_string(),
        ..Default::default()
    }];

    assert_eq!(get_indexes(Some(sources)), None);
}

#[test]
fn test_get_indexes_single_source_primary_with_explicit_sources() {
    let sources = vec![
        Source {
            name: "foobar".to_string(),
            url: Some("http://foobar.foo".to_string()),
            priority: Some(SourcePriority::Explicit),
        },
        Source {
            name: "foo".to_string(),
            url: Some("http://foo.bar".to_string()),
            priority: Some(SourcePriority::Primary),
        },
        Source {
            name: "bar".to_string(),
            url: Some("http://bar.foo".to_string()),
            priority: Some(SourcePriority::Explicit),
        },
    ];

    let expected = vec![Index {
        name: "foo".to_string(),
        url: Some("http://foo.bar".to_string()),
        default: Some(true),
        ..Default::default()
    }];

    assert_eq!(get_indexes(Some(sources)), Some(expected));
}

#[test]
fn test_get_indexes_none() {
    assert_eq!(get_indexes(None), None);
}

#[test]
fn test_get_indexes_multiple_sources_order_and_pypi_url() {
    let sources = vec![
        Source {
            name: "extra".to_string(),
            url: Some("http://extra.example".to_string()),
            priority: Some(SourcePriority::Supplemental),
        },
        Source {
            name: "pypi".to_string(),
            url: None,
            priority: Some(SourcePriority::Primary),
        },
    ];

    let indexes = get_indexes(Some(sources)).unwrap();
    assert_eq!(indexes.len(), 2);
    // Primary sorts before supplemental, and PyPI gets its well-known URL.
    assert_eq!(indexes[0].name, "pypi");
    assert_eq!(indexes[0].url, Some("https://pypi.org/simple/".to_string()));
    assert_eq!(indexes[1].name, "extra");
    assert_eq!(indexes[1].explicit, None);
}

fn detail_with(
    source: Option<&str>,
    url: Option<&str>,
    path: Option<&str>,
    git: Option<&str>,
) -> DependencySpecification {
    DependencySpecification::Detail {
        version: None,
        extras: None,
        markers: None,
        python: None,
        platform: None,
        source: source.map(str::to_string),
        url: url.map(str::to_string),
        path: path.map(str::to_string),
        develop: Some(true),
        git: git.map(str::to_string),
        branch: Some("main".to_string()),
        rev: None,
        tag: None,
        subdirectory: None,
    }
}

#[test]
fn test_get_source_index_precedence() {
    let with_source = detail_with(Some("internal"), Some("http://x"), Some("p"), Some("g"));
    let si = get_source_index(&with_source).unwrap();
    assert_eq!(si.index, Some("internal".to_string()));
    assert_eq!(si.url, None);

    let with_url = detail_with(None, Some("http://x"), Some("p"), Some("g"));
    let si = get_source_index(&with_url).unwrap();
    assert_eq!(si.url, Some("http://x".to_string()));

    let with_path = detail_with(None, None, Some("p"), Some("g"));
    let si = get_source_index(&with_path).unwrap();
    assert_eq!(si.path, Some("p".to_string()));
    assert_eq!(si.editable, Some(true));

    let with_git = detail_with(None, None, None, Some("g"));
    let si = get_source_index(&with_git).unwrap();
    assert_eq!(si.git, Some("g".to_string()));
    assert_eq!(si.branch, Some("main".to_string()));

    let bare = detail_with(None, None, None, None);
    assert!(get_source_index(&bare).is_none());
    assert!(get_source_index(&DependencySpecification::Text("^1.0".to_string())).is_none());
}
