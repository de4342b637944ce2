use bazel_updater::dependency::{is_valid_sha256, Dependency, Violation};

fn record(name: &str, version: &str, sha256: &str, urls: Vec<&str>) -> Dependency {
    Dependency::new(
        name.to_string(),
        "desc".to_string(),
        "url".to_string(),
        version.to_string(),
        sha256.to_string(),
        urls.into_iter().map(|u| u.to_string()).collect(),
    )
}

#[test]
fn test_dependency_creation() {
    let dep = Dependency::new(
        "test-project".to_string(),
        "A test project".to_string(),
        "https://example.com".to_string(),
        "1.0.0".to_string(),
        "a".repeat(64),
        vec!["https://example.com/download".to_string()],
    );

    assert_eq!(dep.project_name, "test-project");
    assert_eq!(dep.version, "1.0.0");
    assert!(dep.license.is_none());
}

#[test]
fn test_validation_success() {
    let dep = Dependency::new(
        "test".to_string(),
        "desc".to_string(),
        "url".to_string(),
        "1.0".to_string(),
        "a".repeat(64),
        vec!["https://url".to_string()],
    );
    assert!(dep.validate().is_ok());
}

#[test]
fn test_validation_invalid_sha256() {
    let dep = Dependency::new(
        "test".to_string(),
        "desc".to_string(),
        "url".to_string(),
        "1.0".to_string(),
        "short".to_string(),
        vec!["url".to_string()],
    );
    assert!(dep.validate().is_err());
}

#[test]
fn new_leaves_optional_fields_absent() {
    let dep = record("n", "1", &"f".repeat(64), vec!["u"]);
    assert_eq!(dep.sha256, "f".repeat(64));
    assert_eq!(dep.urls, vec!["u".to_string()]);
    assert!(dep.strip_prefix.is_none());
    assert!(dep.release_date.is_none());
    assert!(dep.use_category.is_none());
    assert!(dep.license_url.is_none());
    assert!(dep.cpe.is_none());
    assert!(dep.implied_untracked_deps.is_none());
}

#[test]
fn hash_of_wrong_length_is_reported() {
    let dep = record("n", "1", &"a".repeat(63), vec!["u"]);
    let err = dep.validate().unwrap_err();
    assert_eq!(err.violations, vec![Violation::InvalidSha256]);
    let dep = record("n", "1", &"a".repeat(65), vec!["u"]);
    assert_eq!(dep.validate().unwrap_err().violations, vec![Violation::InvalidSha256]);
}

#[test]
fn hash_with_non_hex_digit_is_reported() {
    let mut hash = "0123456789abcdefABCDEF".repeat(3);
    hash.truncate(63);
    hash.push('g');
    assert_eq!(hash.len(), 64);
    let dep = record("n", "1", &hash, vec!["u"]);
    assert_eq!(dep.validate().unwrap_err().violations, vec![Violation::InvalidSha256]);
}

#[test]
fn mixed_case_hash_is_accepted() {
    let mut hash = "0123456789abcdefABCDEF".repeat(3);
    hash.truncate(64);
    assert!(is_valid_sha256(&hash));
    assert!(record("n", "1", &hash, vec!["u"]).validate().is_ok());
}

#[test]
fn non_ascii_hash_is_rejected() {
    let hash = "é".repeat(64);
    assert!(!is_valid_sha256(&hash));
    assert!(!is_valid_sha256(&String::new()));
}

#[test]
fn empty_urls_are_reported_alone() {
    let dep = record("n", "1", &"a".repeat(64), vec![]);
    assert_eq!(dep.validate().unwrap_err().violations, vec![Violation::EmptyUrls]);
}

#[test]
fn empty_urls_are_reported_beside_other_violations() {
    let dep = record("", "", "xyz", vec![]);
    let v = dep.validate().unwrap_err().violations;
    assert!(v.contains(&Violation::EmptyUrls));
    assert_eq!(
        v,
        vec![
            Violation::EmptyProjectName,
            Violation::EmptyVersion,
            Violation::InvalidSha256,
            Violation::EmptyUrls
        ]
    );
}

#[test]
fn empty_name_and_short_hash_are_reported_together() {
    let dep = record("", "2.0", &"a".repeat(10), vec!["u"]);
    let err = dep.validate().unwrap_err();
    assert_eq!(err.violations, vec![Violation::EmptyProjectName, Violation::InvalidSha256]);
    assert_eq!(
        err.message(),
        "Validation failed for '' @ '2.0':\n  - project_name cannot be empty\n  - sha256 must be 64 hexadecimal characters (256 bits)"
    );
}

#[test]
fn every_rule_is_reported() {
    let dep = Dependency::new(
        String::new(),
        String::new(),
        String::new(),
        String::new(),
        String::new(),
        vec![],
    );
    let err = dep.validate().unwrap_err();
    assert_eq!(err.violations.len(), 6);
    assert_eq!(
        err.message(),
        "Validation failed for '' @ '':\n  - project_name cannot be empty\n  - project_desc cannot be empty\n  - project_url cannot be empty\n  - version cannot be empty\n  - sha256 must be 64 hexadecimal characters (256 bits)\n  - urls cannot be empty"
    );
}

#[test]
fn error_names_record_and_version() {
    let err = record("zlib", "1.3", "short", vec!["u"]).validate().unwrap_err();
    assert_eq!(err.project_name, "zlib");
    assert_eq!(err.version, "1.3");
    assert!(err.message().starts_with("Validation failed for 'zlib' @ '1.3':"));
}

#[test]
fn validate_twice_gives_same_result() {
    let dep = record("", "1", "short", vec!["u"]);
    let before = dep.clone();
    let first = dep.validate().unwrap_err();
    let second = dep.validate().unwrap_err();
    assert_eq!(first.violations, second.violations);
    assert_eq!(first.message(), second.message());
    assert_eq!(dep, before);
    let ok = record("n", "1", &"a".repeat(64), vec!["u"]);
    assert!(ok.validate().is_ok());
    assert!(ok.validate().is_ok());
}
