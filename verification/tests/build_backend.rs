use migrate_to_uv::converters::poetry::build_backend::{
    get_build_backend, get_hatch, get_new_build_system, get_uv, BuildBackendObject,
};
use migrate_to_uv::converters::BuildBackend;
use migrate_to_uv::errors::MigrationErrors;
use migrate_to_uv::fsmodel::FsOracle;
use migrate_to_uv::schema::poetry::{Format, Include, Package};
use migrate_to_uv::schema::pyproject::BuildSystem;
use migrate_to_uv::schema::utils::SingleOrVec;

fn rule(pattern: &str, from: Option<&str>, to: Option<&str>, format: Option<SingleOrVec<Format>>) -> Package {
    Package {
        pattern: pattern.to_string(),
        from: from.map(str::to_string),
        to: to.map(str::to_string),
        format,
    }
}

#[test]
fn test_hatch_glob_rewrite_keyed_by_static_prefixes() {
    let oracle = FsOracle::new();
    let packages = vec![rule("pkg/**", Some("src"), Some("lib"), None)];
    let hatch = get_hatch(Some(&packages), None, None, &oracle).unwrap().unwrap();
    let build = hatch.build.unwrap();
    let targets = build.targets.unwrap();
    let wheel = targets.get("wheel").unwrap();
    let sources = wheel.sources.as_ref().unwrap();
    // The rewrite is keyed by the longest non-glob prefix on each side.
    assert_eq!(sources.get("src/pkg"), Some(&"lib/pkg".to_string()));
    let includes = wheel.includes.as_ref().unwrap();
    assert_eq!(includes, &vec!["src/pkg/**".to_string()]);
}

#[test]
fn test_hatch_rejects_rewrite_of_single_file() {
    let mut oracle = FsOracle::new();
    oracle.add_file("src/one.py".to_string());
    let packages = vec![rule("one.py", Some("src"), None, None)];
    let errors = get_hatch(Some(&packages), None, None, &oracle).unwrap_err();
    assert_eq!(errors.len(), 1);
    assert!(errors[0].contains("on a file"));
}

#[test]
fn test_hatch_bare_source_dir_maps_back_to_pattern() {
    let oracle = FsOracle::new();
    let packages = vec![rule("pkg", Some("src"), None, None)];
    let hatch = get_hatch(Some(&packages), None, None, &oracle).unwrap().unwrap();
    let targets = hatch.build.unwrap().targets.unwrap();
    let wheel = targets.get("wheel").unwrap();
    assert_eq!(wheel.sources.as_ref().unwrap().get("src/pkg"), Some(&"pkg".to_string()));
}

#[test]
fn test_hatch_includes_and_exclude() {
    let oracle = FsOracle::new();
    let includes = vec![
        Include::Plain("docs/guide.md".to_string()),
        Include::Selected {
            path: "extra.txt".to_string(),
            format: Some(SingleOrVec::Single(Format::Wheel)),
        },
    ];
    let exclude = vec!["tests".to_string()];
    let hatch = get_hatch(None, Some(&includes), Some(&exclude), &oracle).unwrap().unwrap();
    let targets = hatch.build.unwrap().targets.unwrap();
    let sdist = targets.get("sdist").unwrap();
    // With no format selector an entry lands in the source distribution only.
    assert_eq!(
        sdist.force_include.as_ref().unwrap().get("docs/guide.md"),
        Some(&"docs/guide.md".to_string())
    );
    assert_eq!(sdist.exclude, Some(vec!["tests".to_string()]));
    let wheel = targets.get("wheel").unwrap();
    assert_eq!(
        wheel.force_include.as_ref().unwrap().get("extra.txt"),
        Some(&"extra.txt".to_string())
    );
    assert!(wheel.force_include.as_ref().unwrap().get("docs/guide.md").is_none());
}

#[test]
fn test_uv_glob_wheel_only_rejected_sdist_only_accepted() {
    let oracle = FsOracle::new();
    let wheel_only = vec![rule("pkg/**", None, None, Some(SingleOrVec::Single(Format::Wheel)))];
    let errors = get_uv(Some(&wheel_only), None, None, &oracle).unwrap_err();
    assert_eq!(errors.len(), 1);
    assert!(errors[0].contains("wheels only"));
    assert!(errors[0].contains("uses globs"));

    let sdist_only = vec![rule("pkg/**", None, None, Some(SingleOrVec::Single(Format::Sdist)))];
    let backend = get_uv(Some(&sdist_only), None, None, &oracle).unwrap().unwrap();
    assert_eq!(backend.source_include, Some(vec!["pkg/**".to_string()]));
}

#[test]
fn test_uv_module_requires_marker_file() {
    let oracle = FsOracle::new();
    let packages = vec![rule("mypkg", None, None, None)];
    let errors = get_uv(Some(&packages), None, None, &oracle).unwrap_err();
    assert_eq!(errors.len(), 1);
    assert!(errors[0].contains("__init__.py"));

    let mut oracle = FsOracle::new();
    oracle.add_existing("mypkg/__init__.py".to_string());
    let backend = get_uv(Some(&packages), None, None, &oracle).unwrap().unwrap();
    assert_eq!(
        backend.module_name,
        Some(SingleOrVec::Many(vec!["mypkg".to_string()]))
    );
    assert_eq!(backend.module_root, Some(String::new()));
}

#[test]
fn test_uv_sdist_only_module_excluded_from_wheel() {
    let mut oracle = FsOracle::new();
    oracle.add_existing("inner/tool/__init__.py".to_string());
    let packages = vec![rule("inner/tool", None, None, Some(SingleOrVec::Single(Format::Sdist)))];
    let backend = get_uv(Some(&packages), None, None, &oracle).unwrap().unwrap();
    // The path separator becomes a module separator.
    assert_eq!(
        backend.module_name,
        Some(SingleOrVec::Many(vec!["inner.tool".to_string()]))
    );
    assert_eq!(backend.wheel_exclude, Some(vec!["inner/tool".to_string()]));
}

#[test]
fn test_uv_rule_with_redirection_gets_two_complaints() {
    let mut oracle = FsOracle::new();
    oracle.add_existing("pkg/__init__.py".to_string());
    let packages = vec![rule("pkg", Some("src"), Some("lib"), None)];
    let errors = get_uv(Some(&packages), None, None, &oracle).unwrap_err();
    assert_eq!(errors.len(), 3);
    assert!(errors[0].contains("\"from\""));
    assert!(errors[1].contains("\"to\""));
    // The marker is probed under the source directory, which the oracle lacks.
    assert!(errors[2].contains("__init__.py"));
}

#[test]
fn test_uv_bare_include_directory_gets_wildcard() {
    let oracle = FsOracle::new();
    let includes = vec![Include::Plain("docs".to_string())];
    let exclude = vec!["secrets".to_string()];
    let backend = get_uv(None, Some(&includes), Some(&exclude), &oracle).unwrap().unwrap();
    assert_eq!(backend.source_include, Some(vec!["docs/**".to_string()]));
    assert_eq!(backend.source_exclude, Some(vec!["secrets".to_string()]));
    assert_eq!(backend.wheel_exclude, Some(vec!["secrets".to_string()]));
}

#[test]
fn test_get_new_build_system() {
    let poetry_backend = BuildSystem {
        requires: vec!["poetry-core".to_string()],
        build_backend: Some("poetry.core.masonry.api".to_string()),
    };
    let hatch = get_new_build_system(Some(poetry_backend.clone()), None).unwrap();
    assert_eq!(hatch.requires, vec!["hatchling".to_string()]);
    assert_eq!(hatch.build_backend, Some("hatchling.build".to_string()));

    let uv = get_new_build_system(Some(poetry_backend), Some(BuildBackend::Uv)).unwrap();
    assert_eq!(uv.requires, vec!["uv_build".to_string()]);
    assert_eq!(uv.build_backend, Some("uv_build".to_string()));

    let other = BuildSystem {
        requires: vec!["setuptools".to_string()],
        build_backend: Some("setuptools.build_meta".to_string()),
    };
    assert!(get_new_build_system(Some(other), None).is_none());
    assert!(get_new_build_system(None, None).is_none());
}

#[test]
fn test_dispatcher_falls_back_with_advice_on_uv_failure() {
    let oracle = FsOracle::new();
    let packages = vec![rule("pkg/**", None, None, None)];
    let mut errors = MigrationErrors::new();
    let picked = get_build_backend(
        Some(BuildBackend::Uv),
        Some(&packages),
        None,
        None,
        &oracle,
        &mut errors,
    );
    assert!(picked.is_none());
    assert_eq!(errors.len(), 2);
    assert!(errors.message_at(1).contains("--build-backend hatch"));
    assert!(!errors.recoverable_at(0));
}

#[test]
fn test_dispatcher_picks_hatch_by_default() {
    let oracle = FsOracle::new();
    let packages = vec![rule("pkg", None, None, None)];
    let mut errors = MigrationErrors::new();
    let picked = get_build_backend(None, Some(&packages), None, None, &oracle, &mut errors);
    match picked {
        Some(BuildBackendObject::Hatch(h)) => {
            let targets = h.build.unwrap().targets.unwrap();
            assert!(targets.get("sdist").is_some());
        }
        _ => panic!("expected the hatch backend"),
    }
    assert!(errors.is_empty());
}
