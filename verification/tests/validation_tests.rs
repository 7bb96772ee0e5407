use spectool::json::{Json, JsonNum};
use spectool::validation::{validate_outputs, ComparisonOutcome};

fn n(v: i64) -> Json {
    Json::Num(JsonNum::Int(v))
}

fn s(v: &str) -> Json {
    Json::Str(v.to_string())
}

fn arr(items: Vec<Json>) -> Json {
    Json::Arr(items)
}

fn obj(pairs: Vec<(&str, Json)>) -> Json {
    Json::Obj(pairs.into_iter().map(|(k, v)| (k.to_string(), v)).collect())
}

fn excludes(keys: &[&str]) -> Vec<String> {
    keys.iter().map(|k| k.to_string()).collect()
}

fn mismatch_message(outcome: ComparisonOutcome) -> String {
    match outcome {
        ComparisonOutcome::Match => panic!("expected a mismatch"),
        ComparisonOutcome::Mismatch { message, .. } => message,
    }
}

#[test]
fn test_identical_objects() {
    let expected = obj(vec![("a", n(1)), ("b", s("test"))]);
    let actual = obj(vec![("a", n(1)), ("b", s("test"))]);
    assert!(validate_outputs(&expected, &actual, &excludes(&[])).is_match());
}

#[test]
fn test_value_mismatch() {
    let expected = obj(vec![("a", n(1))]);
    let actual = obj(vec![("a", n(2))]);
    let result = validate_outputs(&expected, &actual, &excludes(&[]));
    assert!(!result.is_match());
    assert!(mismatch_message(result).contains("number mismatch"));
}

#[test]
fn test_missing_key() {
    let expected = obj(vec![("a", n(1)), ("b", n(2))]);
    let actual = obj(vec![("a", n(1))]);
    let result = validate_outputs(&expected, &actual, &excludes(&[]));
    assert!(!result.is_match());
    assert!(mismatch_message(result).contains("missing key"));
}

#[test]
fn test_extra_key() {
    let expected = obj(vec![("a", n(1))]);
    let actual = obj(vec![("a", n(1)), ("b", n(2))]);
    let result = validate_outputs(&expected, &actual, &excludes(&[]));
    assert!(!result.is_match());
    assert!(mismatch_message(result).contains("unexpected key"));
}

#[test]
fn test_exclude_outputs() {
    let expected = obj(vec![("a", n(1)), ("timestamp", n(100))]);
    let actual = obj(vec![("a", n(1)), ("timestamp", n(200))]);
    assert!(validate_outputs(&expected, &actual, &excludes(&["timestamp"])).is_match());
}

#[test]
fn test_nested_objects() {
    let expected = obj(vec![("outer", obj(vec![("inner", obj(vec![("value", n(42))]))]))]);
    let actual = obj(vec![("outer", obj(vec![("inner", obj(vec![("value", n(42))]))]))]);
    assert!(validate_outputs(&expected, &actual, &excludes(&[])).is_match());
}

#[test]
fn test_nested_mismatch() {
    let expected = obj(vec![("outer", obj(vec![("inner", obj(vec![("value", n(42))]))]))]);
    let actual = obj(vec![("outer", obj(vec![("inner", obj(vec![("value", n(43))]))]))]);
    let result = validate_outputs(&expected, &actual, &excludes(&[]));
    assert!(!result.is_match());
    assert!(mismatch_message(result).contains("outer.inner.value"));
}

#[test]
fn test_array_match() {
    let expected = obj(vec![("items", arr(vec![n(1), n(2), n(3)]))]);
    let actual = obj(vec![("items", arr(vec![n(1), n(2), n(3)]))]);
    assert!(validate_outputs(&expected, &actual, &excludes(&[])).is_match());
}

#[test]
fn test_array_length_mismatch() {
    let expected = obj(vec![("items", arr(vec![n(1), n(2), n(3)]))]);
    let actual = obj(vec![("items", arr(vec![n(1), n(2)]))]);
    let result = validate_outputs(&expected, &actual, &excludes(&[]));
    assert!(!result.is_match());
    assert!(mismatch_message(result).contains("array length mismatch"));
}

#[test]
fn test_array_element_mismatch() {
    let expected = obj(vec![("items", arr(vec![n(1), n(2), n(3)]))]);
    let actual = obj(vec![("items", arr(vec![n(1), n(5), n(3)]))]);
    let result = validate_outputs(&expected, &actual, &excludes(&[]));
    assert!(!result.is_match());
    assert!(mismatch_message(result).contains("items[1]"));
}

#[test]
fn test_type_mismatch() {
    let expected = obj(vec![("value", n(42))]);
    let actual = obj(vec![("value", s("42"))]);
    let result = validate_outputs(&expected, &actual, &excludes(&[]));
    assert!(!result.is_match());
    assert!(mismatch_message(result).contains("type mismatch"));
}

#[test]
fn test_exclude_nested_key() {
    let expected = obj(vec![
        ("a", n(1)),
        ("nested", obj(vec![("timestamp", n(100)), ("value", n(42))])),
    ]);
    let actual = obj(vec![
        ("a", n(1)),
        ("nested", obj(vec![("timestamp", n(200)), ("value", n(42))])),
    ]);
    assert!(validate_outputs(&expected, &actual, &excludes(&["timestamp"])).is_match());
}

#[test]
fn test_exclude_nested_path() {
    let expected = obj(vec![
        ("a", n(1)),
        ("nested", obj(vec![("timestamp", n(100)), ("value", n(42))])),
    ]);
    let actual = obj(vec![
        ("a", n(1)),
        ("nested", obj(vec![("timestamp", n(200)), ("value", n(42))])),
    ]);
    assert!(validate_outputs(&expected, &actual, &excludes(&["nested.timestamp"])).is_match());
}

#[test]
fn test_exclude_nested_path_preserves_other_fields() {
    let expected = obj(vec![
        ("a", n(1)),
        ("nested", obj(vec![("timestamp", n(100)), ("value", n(42))])),
    ]);
    let actual = obj(vec![
        ("a", n(1)),
        ("nested", obj(vec![("timestamp", n(200)), ("value", n(99))])),
    ]);
    let result = validate_outputs(&expected, &actual, &excludes(&["nested.timestamp"]));
    assert!(!result.is_match());
    assert!(mismatch_message(result).contains("nested.value"));
}
