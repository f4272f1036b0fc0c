use migrate_to_uv::converters::poetry::version::{ParsePep440Error, PoetryPep440, VersionErrorKind};

#[test]
fn test_space_separated_version_constraints() {
    // Poetry accepts space-separated constraints, should convert to comma-separated
    let result = PoetryPep440::from_str(">=3.10 <4.0").unwrap();
    assert_eq!(result.to_string(), ">=3.10,<4.0");
}

#[test]
fn test_space_separated_three_constraints() {
    let result = PoetryPep440::from_str(">=3.10 <4.0 !=3.11").unwrap();
    assert_eq!(result.to_string(), ">=3.10,<4.0,!=3.11");
}

#[test]
fn test_comma_separated_preserved() {
    // Already comma-separated should be preserved
    let result = PoetryPep440::from_str(">=3.10,<4.0").unwrap();
    assert_eq!(result.to_string(), ">=3.10,<4.0");
}

#[test]
fn test_single_constraint() {
    let result = PoetryPep440::from_str(">=3.10").unwrap();
    assert_eq!(result.to_string(), ">=3.10");
}

#[test]
fn test_caret_operator() {
    let result = PoetryPep440::from_str("^3.10").unwrap();
    assert_eq!(result.to_string(), ">=3.10,<4");
}

#[test]
fn test_caret_table() {
    let cases = [
        ("^1.2.3", ">=1.2.3,<2"),
        ("^0.2.3", ">=0.2.3,<0.3"),
        ("^0.0.3", ">=0.0.3,<0.0.4"),
        ("^0.0", ">=0.0,<0.1"),
    ];
    for (input, expected) in cases {
        assert_eq!(PoetryPep440::from_str(input).unwrap().to_string(), expected);
    }
}

#[test]
fn test_tilde_table() {
    let cases = [("~1.2.3", "~=1.2.3"), ("~1.2", ">=1.2,<1.3"), ("~1", ">=1,<2")];
    for (input, expected) in cases {
        assert_eq!(PoetryPep440::from_str(input).unwrap().to_string(), expected);
    }
}

#[test]
fn test_or_syntax_rejected() {
    let err: ParsePep440Error = PoetryPep440::from_str("^1.0||^2.0").unwrap_err();
    assert_eq!(err.kind, VersionErrorKind::Syntax);
    assert!(err.message().contains("||"));
}

#[test]
fn test_single_bar_rejected() {
    let err = PoetryPep440::from_str(">=1.0,^1.0|^2.0").unwrap_err();
    assert_eq!(err.kind, VersionErrorKind::Syntax);
    assert_eq!(err.detail, "^1.0|^2.0");
}

#[test]
fn test_unparseable_falls_back_then_errors() {
    let err = PoetryPep440::from_str("not a version").unwrap_err();
    assert_eq!(err.kind, VersionErrorKind::Parse);
    assert!(err.message().contains("Could not parse"));
}

#[test]
fn test_wildcard_clause() {
    let result = PoetryPep440::from_str("*").unwrap();
    assert_eq!(result.to_string(), "");
}

#[test]
fn test_equals_prefix() {
    let result = PoetryPep440::from_str("=1.2.3").unwrap();
    assert_eq!(result.to_string(), "==1.2.3");
}

#[test]
fn test_mixed_caret_and_exclusion() {
    let result = PoetryPep440::from_str("^1.0,!=1.1.0").unwrap();
    assert_eq!(result.to_string(), ">=1.0,<2,!=1.1.0");
}

#[test]
fn test_translation_idempotent_on_samples() {
    for input in ["^1.2.3", "~2.0", ">=3.10 <4.0", "*", "=1.0", "^0.0.3,!=0.0.3a1"] {
        let once = PoetryPep440::from_str(input).unwrap().to_string();
        let twice = PoetryPep440::from_str(&once).unwrap().to_string();
        assert_eq!(once, twice, "translating {input:?} twice changed the result");
    }
}

#[test]
fn test_round_trip_on_valid_input() {
    for input in [">=1.0", "==2.3.4", ">=1.0,<2.0,!=1.5", ""] {
        assert_eq!(PoetryPep440::from_str(input).unwrap().to_string(), input);
    }
}

#[test]
fn test_python_marker() {
    let spec = PoetryPep440::from_str(">=3.8,<4").unwrap();
    assert_eq!(
        spec.try_python_marker().unwrap(),
        "python_version >= '3.8' and python_version < '4'"
    );
}

#[test]
fn test_python_marker_single() {
    let spec = PoetryPep440::from_str("^3.10").unwrap();
    assert_eq!(
        spec.try_python_marker().unwrap(),
        "python_version >= '3.10' and python_version < '4'"
    );
}
