use refield::json::json_equal;
use refield::json::JsonValue;

fn obj(pairs: Vec<(&str, JsonValue)>) -> JsonValue {
    JsonValue::Object(pairs.into_iter().map(|(k, v)| (k.to_string(), v)).collect())
}

#[test]
fn test_json_equal_ignores_object_entry_order() {
    let a = obj(vec![
        ("x", JsonValue::Int(1)),
        ("y", JsonValue::Str("s".to_string())),
    ]);
    let b = obj(vec![
        ("y", JsonValue::Str("s".to_string())),
        ("x", JsonValue::Int(1)),
    ]);
    assert!(json_equal(&a, &b));
}

#[test]
fn test_json_equal_respects_array_order() {
    let a = JsonValue::Array(vec![JsonValue::Int(1), JsonValue::Int(2)]);
    let b = JsonValue::Array(vec![JsonValue::Int(2), JsonValue::Int(1)]);
    assert!(!json_equal(&a, &b));
}

#[test]
fn test_json_equal_distinguishes_values_and_shapes() {
    assert!(json_equal(&JsonValue::Null, &JsonValue::Null));
    assert!(!json_equal(&JsonValue::Null, &JsonValue::Bool(false)));
    assert!(!json_equal(&JsonValue::Int(1), &JsonValue::Int(2)));
    assert!(!json_equal(
        &obj(vec![("x", JsonValue::Int(1))]),
        &obj(vec![("x", JsonValue::Int(1)), ("y", JsonValue::Int(2))]),
    ));
    assert!(json_equal(
        &obj(vec![("deep", obj(vec![("k", JsonValue::Bool(true))]))]),
        &obj(vec![("deep", obj(vec![("k", JsonValue::Bool(true))]))]),
    ));
}
