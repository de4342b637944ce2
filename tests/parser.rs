use bazel_updater::parser::{Field, ParseError, RecordError, StarlarkParser, LOCATIONS_SYMBOL};
use bazel_updater::value::Value;

fn s(x: &str) -> Value {
    Value::Str(x.to_string())
}

fn list(items: &[&str]) -> Value {
    Value::List(items.iter().map(|x| s(x)).collect())
}

fn dict(entries: Vec<(&str, Value)>) -> Value {
    Value::Dict(entries.into_iter().map(|(k, v)| (s(k), v)).collect())
}

fn module(spec: Value) -> Value {
    dict(vec![(LOCATIONS_SYMBOL, spec)])
}

fn entry(name: &str, sha256: &str) -> Value {
    dict(vec![
        ("project_name", s(name)),
        ("project_desc", s("A test dependency")),
        ("project_url", s("https://example.com")),
        ("version", s("1.0.0")),
        ("sha256", s(sha256)),
        ("urls", list(&["https://example.com/download.tar.gz"])),
    ])
}

fn entry_without(field: &str) -> Value {
    let full = vec![
        ("project_name", s("p")),
        ("project_desc", s("d")),
        ("project_url", s("u")),
        ("version", s("1")),
        ("sha256", s(&"b".repeat(64))),
        ("urls", list(&["https://x"])),
    ];
    dict(full.into_iter().filter(|(k, _)| *k != field).collect())
}

#[test]
fn test_parse_simple_repository() {
    let content = module(dict(vec![("test_dep", entry("Test Project", &"a".repeat(64)))]));

    let result = StarlarkParser::parse(&content);
    assert!(result.is_ok());

    let locations = result.unwrap();
    assert_eq!(locations.len(), 1);
    assert!(locations.contains_key("test_dep"));

    let dep = locations.get("test_dep").unwrap();
    assert_eq!(dep.project_name, "Test Project");
    assert_eq!(dep.version, "1.0.0");
}

#[test]
fn simple_repository_passes_validation() {
    let content = module(dict(vec![("test_dep", entry("Test Project", &"a".repeat(64)))]));
    let locations = StarlarkParser::parse(&content).unwrap();
    assert_eq!(locations.len(), 1);
    let dep = locations.get("test_dep").unwrap();
    assert_eq!(dep.project_name, "Test Project");
    assert_eq!(dep.urls, vec!["https://example.com/download.tar.gz".to_string()]);
    assert!(dep.validate().is_ok());
}

#[test]
fn short_hash_extracts_but_fails_validation() {
    let content = module(dict(vec![("test_dep", entry("Test Project", "short"))]));
    let locations = StarlarkParser::parse(&content).unwrap();
    let dep = locations.get("test_dep").unwrap();
    assert_eq!(dep.sha256, "short");
    let err = dep.validate().unwrap_err();
    assert!(err.message().contains("sha256 must be 64 hexadecimal characters"));
}

#[test]
fn list_bound_to_symbol_is_a_shape_error() {
    let content = module(list(&["a", "b"]));
    assert!(matches!(StarlarkParser::parse(&content), Err(ParseError::NotAMapping)));
}

#[test]
fn missing_symbol_is_reported() {
    let content = dict(vec![("OTHER", dict(vec![]))]);
    assert!(matches!(StarlarkParser::parse(&content), Err(ParseError::SymbolMissing)));
    assert!(matches!(StarlarkParser::parse(&s("x")), Err(ParseError::SymbolMissing)));
}

#[test]
fn empty_catalog_is_accepted() {
    let locations = StarlarkParser::parse(&module(dict(vec![]))).unwrap();
    assert_eq!(locations.len(), 0);
    assert!(!locations.contains_key("test_dep"));
    assert!(locations.get("test_dep").is_none());
}

#[test]
fn non_string_key_is_reported() {
    let spec = Value::Dict(vec![(Value::Int(3), entry("x", "y"))]);
    assert!(matches!(
        StarlarkParser::value_to_repository_locations(&spec),
        Err(ParseError::KeyNotString)
    ));
}

#[test]
fn non_mapping_entry_is_reported_with_its_name() {
    let spec = dict(vec![("good", entry("g", "h")), ("bad", s("oops"))]);
    match StarlarkParser::value_to_repository_locations(&spec) {
        Err(ParseError::InvalidEntry { name, error }) => {
            assert_eq!(name, "bad");
            assert_eq!(error, RecordError::NotAMapping);
        }
        other => panic!("unexpected {:?}", other),
    }
}

#[test]
fn first_bad_entry_aborts_the_catalog() {
    let spec = dict(vec![
        ("one", entry_without("version")),
        ("two", entry_without("sha256")),
    ]);
    match StarlarkParser::value_to_repository_locations(&spec) {
        Err(ParseError::InvalidEntry { name, error }) => {
            assert_eq!(name, "one");
            assert_eq!(error, RecordError::MissingField(Field::Version));
        }
        other => panic!("unexpected {:?}", other),
    }
}

#[test]
fn later_entry_replaces_earlier_one() {
    let spec = dict(vec![
        ("dup", entry("first", "h")),
        ("other", entry("o", "h")),
        ("dup", entry("second", "h")),
    ]);
    let locations = StarlarkParser::value_to_repository_locations(&spec).unwrap();
    assert_eq!(locations.len(), 2);
    assert_eq!(locations.get("dup").unwrap().project_name, "second");
    assert_eq!(locations.entries().len(), 2);
}

#[test]
fn each_missing_mandatory_field_is_named() {
    let cases = [
        ("project_name", Field::ProjectName),
        ("project_desc", Field::ProjectDesc),
        ("project_url", Field::ProjectUrl),
        ("version", Field::Version),
        ("sha256", Field::Sha256),
        ("urls", Field::Urls),
    ];
    for (key, field) in cases {
        assert_eq!(field.name(), key);
        assert_eq!(
            StarlarkParser::value_to_dependency(&entry_without(key)).unwrap_err(),
            RecordError::MissingField(field)
        );
    }
}

#[test]
fn wrong_typed_fields_are_reported() {
    let v = dict(vec![("project_name", Value::Int(1))]);
    assert_eq!(
        StarlarkParser::value_to_dependency(&v).unwrap_err(),
        RecordError::NotAString(Field::ProjectName)
    );
    let mut entries = match entry_without("urls") {
        Value::Dict(e) => e,
        _ => unreachable!(),
    };
    entries.push((s("urls"), s("https://x")));
    assert_eq!(
        StarlarkParser::value_to_dependency(&Value::Dict(entries)).unwrap_err(),
        RecordError::NotAList(Field::Urls)
    );
    let mut entries = match entry_without("urls") {
        Value::Dict(e) => e,
        _ => unreachable!(),
    };
    entries.push((s("urls"), Value::List(vec![s("a"), s("b"), Value::Bool(true), Value::NoneValue])));
    assert_eq!(
        StarlarkParser::value_to_dependency(&Value::Dict(entries)).unwrap_err(),
        RecordError::ItemNotString(Field::Urls, 2)
    );
    assert_eq!(
        StarlarkParser::value_to_dependency(&list(&[])).unwrap_err(),
        RecordError::NotAMapping
    );
}

#[test]
fn fields_are_read_verbatim() {
    let mut entries = match entry("Name", &"c".repeat(64)) {
        Value::Dict(e) => e,
        _ => unreachable!(),
    };
    entries.push((s("strip_prefix"), s("pkg-1.0")));
    entries.push((s("release_date"), s("2024-01-02")));
    entries.push((s("use_category"), list(&["build", "test"])));
    entries.push((s("license"), s("MIT")));
    entries.push((s("license_url"), s("https://l")));
    entries.push((s("cpe"), s("cpe:2.3:a:x")));
    entries.push((s("implied_untracked_deps"), list(&[])));
    let dep = StarlarkParser::value_to_dependency(&Value::Dict(entries)).unwrap();
    assert_eq!(dep.project_name, "Name");
    assert_eq!(dep.project_desc, "A test dependency");
    assert_eq!(dep.project_url, "https://example.com");
    assert_eq!(dep.sha256, "c".repeat(64));
    assert_eq!(dep.strip_prefix.as_deref(), Some("pkg-1.0"));
    assert_eq!(dep.release_date.as_deref(), Some("2024-01-02"));
    assert_eq!(dep.use_category, Some(vec!["build".to_string(), "test".to_string()]));
    assert_eq!(dep.license.as_deref(), Some("MIT"));
    assert_eq!(dep.license_url.as_deref(), Some("https://l"));
    assert_eq!(dep.cpe.as_deref(), Some("cpe:2.3:a:x"));
    assert_eq!(dep.implied_untracked_deps, Some(vec![]));
    assert!(dep.validate().is_ok());
}

#[test]
fn malformed_optional_fields_are_absent() {
    let mut entries = match entry("Name", &"c".repeat(64)) {
        Value::Dict(e) => e,
        _ => unreachable!(),
    };
    entries.push((s("license"), Value::Int(7)));
    entries.push((s("use_category"), Value::List(vec![s("ok"), Value::Int(1)])));
    entries.push((s("implied_untracked_deps"), s("not a list")));
    let dep = StarlarkParser::value_to_dependency(&Value::Dict(entries)).unwrap();
    assert!(dep.license.is_none());
    assert!(dep.use_category.is_none());
    assert!(dep.implied_untracked_deps.is_none());
    assert!(dep.cpe.is_none());
}

#[test]
fn later_field_binding_wins() {
    let mut entries = match entry("First", &"c".repeat(64)) {
        Value::Dict(e) => e,
        _ => unreachable!(),
    };
    entries.push((s("project_name"), s("Second")));
    let dep = StarlarkParser::value_to_dependency(&Value::Dict(entries)).unwrap();
    assert_eq!(dep.project_name, "Second");
}
