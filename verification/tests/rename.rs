use refield::json::JsonValue;
use refield::json::json_equal;
use refield::rename::rename_nested_field;

fn obj(pairs: Vec<(&str, JsonValue)>) -> JsonValue {
    JsonValue::Object(pairs.into_iter().map(|(k, v)| (k.to_string(), v)).collect())
}

fn path(segs: &[&str]) -> Vec<String> {
    segs.iter().map(|s| s.to_string()).collect()
}

#[test]
fn test_rename_nested_field_simple_object() {
    let mut doc = obj(vec![("a", obj(vec![("b", JsonValue::Int(1))]))]);

    let old_field_path = path(&["a", "b"]);
    let new_field = "new_b";

    let result = rename_nested_field(&mut doc, &old_field_path, new_field);

    assert!(result, "Field renaming should succeed");
    let expected = obj(vec![("a", obj(vec![("new_b", JsonValue::Int(1))]))]);
    assert!(
        json_equal(&doc, &expected),
        "Field 'b' should be renamed to 'new_b'"
    );
}

#[test]
fn test_rename_nested_field_nested_object() {
    let mut doc = obj(vec![(
        "a",
        obj(vec![("b", obj(vec![("c", JsonValue::Int(2))]))]),
    )]);

    let old_field_path = path(&["a", "b", "c"]);
    let new_field = "new_c";

    let result = rename_nested_field(&mut doc, &old_field_path, new_field);

    assert!(result, "Field renaming should succeed");
    let expected = obj(vec![(
        "a",
        obj(vec![("b", obj(vec![("new_c", JsonValue::Int(2))]))]),
    )]);
    assert!(
        json_equal(&doc, &expected),
        "Field 'c' should be renamed to 'new_c'"
    );
}

#[test]
fn test_rename_nested_field_array_of_objects() {
    let mut doc = obj(vec![(
        "a",
        obj(vec![(
            "b",
            JsonValue::Array(vec![
                obj(vec![("c", JsonValue::Int(1))]),
                obj(vec![("c", JsonValue::Int(2))]),
            ]),
        )]),
    )]);

    let old_field_path = path(&["a", "b", "c"]);
    let new_field = "new_c";

    let result = rename_nested_field(&mut doc, &old_field_path, new_field);

    assert!(result, "Field renaming should succeed");
    let expected = obj(vec![(
        "a",
        obj(vec![(
            "b",
            JsonValue::Array(vec![
                obj(vec![("new_c", JsonValue::Int(1))]),
                obj(vec![("new_c", JsonValue::Int(2))]),
            ]),
        )]),
    )]);
    assert!(
        json_equal(&doc, &expected),
        "Fields 'c' in array elements should be renamed to 'new_c'"
    );
}

#[test]
fn test_rename_nested_field_nonexistent_field() {
    let mut doc = obj(vec![("a", obj(vec![("b", JsonValue::Int(1))]))]);

    let old_field_path = path(&["a", "x"]);
    let new_field = "new_x";

    let result = rename_nested_field(&mut doc, &old_field_path, new_field);

    assert!(!result, "Field renaming should fail for nonexistent fields");
    let expected = obj(vec![("a", obj(vec![("b", JsonValue::Int(1))]))]);
    assert!(
        json_equal(&doc, &expected),
        "Document should remain unchanged"
    );
}

#[test]
fn test_rename_nested_field_invalid_path() {
    let mut doc = obj(vec![("a", obj(vec![("b", JsonValue::Int(1))]))]);

    let old_field_path: Vec<String> = vec![];
    let new_field = "new_b";

    let result = rename_nested_field(&mut doc, &old_field_path, new_field);

    assert!(!result, "Field renaming should fail for invalid paths");
    let expected = obj(vec![("a", obj(vec![("b", JsonValue::Int(1))]))]);
    assert!(
        json_equal(&doc, &expected),
        "Document should remain unchanged"
    );
}

#[test]
fn test_rename_array_leaves_unmatched_element_alone() {
    let mut doc = obj(vec![(
        "a",
        obj(vec![(
            "b",
            JsonValue::Array(vec![
                obj(vec![("c", JsonValue::Int(1))]),
                obj(vec![("c", JsonValue::Int(2))]),
                obj(vec![("d", JsonValue::Int(3))]),
            ]),
        )]),
    )]);

    let old_field_path = path(&["a", "b", "c"]);
    let result = rename_nested_field(&mut doc, &old_field_path, "a.b.new_c");

    assert!(result);
    let expected = obj(vec![(
        "a",
        obj(vec![(
            "b",
            JsonValue::Array(vec![
                obj(vec![("new_c", JsonValue::Int(1))]),
                obj(vec![("new_c", JsonValue::Int(2))]),
                obj(vec![("d", JsonValue::Int(3))]),
            ]),
        )]),
    )]);
    assert!(json_equal(&doc, &expected));
}

#[test]
fn test_rename_twice_is_idempotent() {
    let mut doc = obj(vec![(
        "a",
        obj(vec![("b", obj(vec![("c", JsonValue::Int(7))]))]),
    )]);
    let expected = obj(vec![(
        "a",
        obj(vec![("b", obj(vec![("new_c", JsonValue::Int(7))]))]),
    )]);

    let old_field_path = path(&["a", "b", "c"]);

    let first = rename_nested_field(&mut doc, &old_field_path, "a.b.new_c");
    assert!(first);
    assert!(json_equal(&doc, &expected));

    let second = rename_nested_field(&mut doc, &old_field_path, "a.b.new_c");
    assert!(!second, "the second run finds nothing to rename");
    assert!(json_equal(&doc, &expected), "the second run changes nothing");
}

#[test]
fn test_rename_overwrites_existing_target_key() {
    let mut doc = obj(vec![(
        "a",
        obj(vec![("b", JsonValue::Int(1)), ("d", JsonValue::Int(2))]),
    )]);

    let old_field_path = path(&["a", "b"]);
    let result = rename_nested_field(&mut doc, &old_field_path, "a.d");

    assert!(result);
    let expected = obj(vec![("a", obj(vec![("d", JsonValue::Int(1))]))]);
    assert!(json_equal(&doc, &expected));
}

#[test]
fn test_rename_uses_only_last_segment_of_new_field() {
    let mut doc = obj(vec![("a", obj(vec![("b", JsonValue::Int(9))]))]);

    let old_field_path = path(&["a", "b"]);
    let result = rename_nested_field(&mut doc, &old_field_path, "x.y.fresh");

    assert!(result);
    let expected = obj(vec![("a", obj(vec![("fresh", JsonValue::Int(9))]))]);
    assert!(json_equal(&doc, &expected));
}
