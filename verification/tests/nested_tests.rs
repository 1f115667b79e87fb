use table_view::nested::{NestedKey, NestedKeyOf, NestedKeyPath, StrMap};

fn map_of<T>(entries: Vec<(&str, T)>) -> StrMap<T> {
    StrMap { entries: entries.into_iter().map(|(k, v)| (k.to_string(), v)).collect() }
}

#[test]
fn test_primitive_types_return_empty_keys() {
    let string_val = "hello".to_string();
    let int_val = 42i32;
    let bool_val = true;

    assert_eq!(string_val.get_nested_keys(), Vec::<NestedKeyPath>::new());
    assert_eq!(int_val.get_nested_keys(), Vec::<NestedKeyPath>::new());
    assert_eq!(bool_val.get_nested_keys(), Vec::<NestedKeyPath>::new());
}

#[test]
fn test_hashmap_with_primitive_values() {
    let map = map_of(vec![("name", "Alice".to_string()), ("age", "30".to_string())]);

    let keys = map.get_nested_keys();

    assert_eq!(keys.len(), 2);
    assert!(keys.contains(&vec![NestedKey::String("name".to_string())]));
    assert!(keys.contains(&vec![NestedKey::String("age".to_string())]));
}

#[test]
fn test_vec_with_primitive_values() {
    let vec = vec!["first".to_string(), "second".to_string(), "third".to_string()];

    let keys = vec.get_nested_keys();

    assert_eq!(keys.len(), 3);
    assert!(keys.contains(&vec![NestedKey::Number(0)]));
    assert!(keys.contains(&vec![NestedKey::Number(1)]));
    assert!(keys.contains(&vec![NestedKey::Number(2)]));
}

#[test]
fn test_nested_hashmap() {
    let inner_map = map_of(vec![("city", "Tokyo".to_string()), ("country", "Japan".to_string())]);
    let outer_map = map_of(vec![("location", inner_map)]);

    let keys = outer_map.get_nested_keys();

    assert_eq!(keys.len(), 2);
    assert!(keys.contains(&vec![
        NestedKey::String("location".to_string()),
        NestedKey::String("city".to_string())
    ]));
    assert!(keys.contains(&vec![
        NestedKey::String("location".to_string()),
        NestedKey::String("country".to_string())
    ]));
}

#[test]
fn test_nested_vec() {
    let inner_vec1 = vec!["a".to_string(), "b".to_string()];
    let inner_vec2 = vec!["c".to_string()];
    let outer_vec = vec![inner_vec1, inner_vec2];

    let keys = outer_vec.get_nested_keys();

    assert_eq!(keys.len(), 3);
    assert!(keys.contains(&vec![NestedKey::Number(0), NestedKey::Number(0)]));
    assert!(keys.contains(&vec![NestedKey::Number(0), NestedKey::Number(1)]));
    assert!(keys.contains(&vec![NestedKey::Number(1), NestedKey::Number(0)]));
}

#[test]
fn test_mixed_nested_structures() {
    let inner_map = map_of(vec![("values", vec!["x".to_string(), "y".to_string()])]);
    let outer_map = map_of(vec![("data", inner_map)]);

    let keys = outer_map.get_nested_keys();

    assert_eq!(keys.len(), 2);
    assert!(keys.contains(&vec![
        NestedKey::String("data".to_string()),
        NestedKey::String("values".to_string()),
        NestedKey::Number(0)
    ]));
    assert!(keys.contains(&vec![
        NestedKey::String("data".to_string()),
        NestedKey::String("values".to_string()),
        NestedKey::Number(1)
    ]));
}

#[test]
fn test_empty_containers() {
    let empty_map: StrMap<String> = StrMap { entries: Vec::new() };
    let empty_vec: Vec<String> = Vec::new();

    assert_eq!(empty_map.get_nested_keys(), Vec::<NestedKeyPath>::new());
    assert_eq!(empty_vec.get_nested_keys(), Vec::<NestedKeyPath>::new());
}

#[test]
fn test_complex_nested_structure() {
    let level2_map = map_of(vec![("item", vec!["value1".to_string(), "value2".to_string()])]);
    let level1_map = map_of(vec![("nested", level2_map)]);
    let vec_of_maps = vec![level1_map];

    let keys = vec_of_maps.get_nested_keys();

    assert_eq!(keys.len(), 2);
    assert!(keys.contains(&vec![
        NestedKey::Number(0),
        NestedKey::String("nested".to_string()),
        NestedKey::String("item".to_string()),
        NestedKey::Number(0)
    ]));
    assert!(keys.contains(&vec![
        NestedKey::Number(0),
        NestedKey::String("nested".to_string()),
        NestedKey::String("item".to_string()),
        NestedKey::Number(1)
    ]));
}

use table_view::nested::{merge, merge_two, NestedValue, NestedValueOf, NestedValueSetter};

fn obj(entries: Vec<(&str, NestedValue)>) -> NestedValue {
    NestedValue::Object(entries.into_iter().map(|(k, v)| (k.to_string(), v)).collect())
}

fn text(s: &str) -> NestedValue {
    NestedValue::String(s.to_string())
}

#[test]
fn test_get_nested_value_object() {
    let nested_value = obj(vec![(
        "user",
        obj(vec![
            ("name", text("John")),
            ("profile", obj(vec![("email", text("john@example.com"))])),
        ]),
    )]);

    let result = nested_value.get_nested_value(&["user"]);
    assert!(matches!(result, Some(NestedValue::Object(_))));

    let result = nested_value.get_nested_value(&["user", "name"]);
    assert!(matches!(result, Some(NestedValue::String(s)) if s == "John"));

    let result = nested_value.get_nested_value(&["user", "profile", "email"]);
    assert!(matches!(result, Some(NestedValue::String(s)) if s == "john@example.com"));

    let result = nested_value.get_nested_value(&["user", "nonexistent"]);
    assert!(result.is_none());
}

#[test]
fn test_get_nested_value_array() {
    let data = NestedValue::Array(vec![
        text("first"),
        obj(vec![("nested", NestedValue::Number(42))]),
        NestedValue::Array(vec![text("nested_array_item")]),
    ]);

    let result = data.get_nested_value(&["0"]);
    assert!(matches!(result, Some(NestedValue::String(s)) if s == "first"));

    let result = data.get_nested_value(&["1", "nested"]);
    assert!(matches!(result, Some(NestedValue::Number(n)) if n == 42));

    let result = data.get_nested_value(&["2", "0"]);
    assert!(matches!(result, Some(NestedValue::String(s)) if s == "nested_array_item"));

    let result = data.get_nested_value(&["5"]);
    assert!(result.is_none());

    let result = data.get_nested_value(&["invalid"]);
    assert!(result.is_none());
}

#[test]
fn test_set_nested_value_object() {
    let mut data = obj(vec![("user", obj(vec![("name", text("John"))]))]);

    let success = data.set_nested_value(&["user", "name"], text("Jane"));
    assert!(success);
    let result = data.get_nested_value(&["user", "name"]);
    assert!(matches!(result, Some(NestedValue::String(s)) if s == "Jane"));

    let success = data.set_nested_value(&["user", "age"], NestedValue::Number(30));
    assert!(success);
    let result = data.get_nested_value(&["user", "age"]);
    assert!(matches!(result, Some(NestedValue::Number(n)) if n == 30));

    let success = data.set_nested_value(&["settings", "theme", "color"], text("dark"));
    assert!(success);
    let result = data.get_nested_value(&["settings", "theme", "color"]);
    assert!(matches!(result, Some(NestedValue::String(s)) if s == "dark"));
}

#[test]
fn test_set_nested_value_array() {
    let mut data = NestedValue::Array(vec![
        text("first"),
        NestedValue::Object(Vec::new()),
        text("third"),
    ]);

    let success = data.set_nested_value(&["0"], text("updated_first"));
    assert!(success);
    let result = data.get_nested_value(&["0"]);
    assert!(matches!(result, Some(NestedValue::String(s)) if s == "updated_first"));

    let success = data.set_nested_value(&["1", "key"], text("value"));
    assert!(success);
    let result = data.get_nested_value(&["1", "key"]);
    assert!(matches!(result, Some(NestedValue::String(s)) if s == "value"));

    let success = data.set_nested_value(&["10"], text("out_of_bounds"));
    assert!(!success);
}

#[test]
fn test_set_nested_value_replace_root() {
    let mut data = text("original");

    let success = data.set_nested_value(&[], NestedValue::Number(42));
    assert!(success);

    assert!(matches!(data, NestedValue::Number(n) if n == 42));
}

#[test]
fn test_edge_cases() {
    let data = text("not_a_container");

    let result = data.get_nested_value(&["key"]);
    assert!(result.is_none());

    let mut data = text("not_a_container");
    let success = data.set_nested_value(&["key"], text("value"));
    assert!(!success);

    let data = text("test");
    let result = data.get_nested_value(&[]);
    assert!(matches!(result, Some(NestedValue::String(s)) if s == "test"));
}

#[test]
fn test_merge_simple_objects() {
    let a = obj(vec![("a", NestedValue::Number(1)), ("b", NestedValue::Number(2))]);
    let b = obj(vec![("b", NestedValue::Number(3)), ("c", NestedValue::Number(4))]);
    let result = merge_two(a, b);
    let expected = obj(vec![
        ("a", NestedValue::Number(1)),
        ("b", NestedValue::Number(3)),
        ("c", NestedValue::Number(4)),
    ]);
    assert_eq!(result, expected);
}

#[test]
fn test_merge_nested_objects() {
    let a = obj(vec![
        ("nested", obj(vec![("a", NestedValue::Number(1)), ("b", NestedValue::Number(2))])),
        ("other", text("value")),
    ]);
    let b = obj(vec![(
        "nested",
        obj(vec![("b", NestedValue::Number(3)), ("c", NestedValue::Number(4))]),
    )]);
    let result = merge_two(a, b);
    let expected = obj(vec![
        (
            "nested",
            obj(vec![
                ("a", NestedValue::Number(1)),
                ("b", NestedValue::Number(3)),
                ("c", NestedValue::Number(4)),
            ]),
        ),
        ("other", text("value")),
    ]);
    assert_eq!(result, expected);
}

#[test]
fn test_merge_arrays_replace() {
    let a = obj(vec![(
        "arr",
        NestedValue::Array(vec![
            NestedValue::Number(1),
            NestedValue::Number(2),
            NestedValue::Number(3),
        ]),
    )]);
    let b = obj(vec![(
        "arr",
        NestedValue::Array(vec![NestedValue::Number(4), NestedValue::Number(5)]),
    )]);
    let result = merge_two(a, b);
    let expected = obj(vec![(
        "arr",
        NestedValue::Array(vec![NestedValue::Number(4), NestedValue::Number(5)]),
    )]);
    assert_eq!(result, expected);
}

#[test]
fn test_merge_multiple_objects() {
    let objs = vec![
        obj(vec![("a", NestedValue::Number(1))]),
        obj(vec![("b", NestedValue::Number(2))]),
        obj(vec![("c", NestedValue::Number(3))]),
    ];
    let result = merge(objs);
    let expected = obj(vec![
        ("a", NestedValue::Number(1)),
        ("b", NestedValue::Number(2)),
        ("c", NestedValue::Number(3)),
    ]);
    assert_eq!(result, expected);
}

#[test]
fn test_deep_merge_hashmaps() {
    let a = vec![
        ("keep".to_string(), NestedValue::Number(1)),
        ("deep".to_string(), obj(vec![("x", NestedValue::Number(1))])),
    ];
    let b = vec![
        ("deep".to_string(), obj(vec![("y", NestedValue::Number(2))])),
        ("new".to_string(), NestedValue::Bool(true)),
    ];
    let merged = table_view::nested::deep_merge_hashmaps(a, b);
    let expected = vec![
        ("keep".to_string(), NestedValue::Number(1)),
        (
            "deep".to_string(),
            obj(vec![("x", NestedValue::Number(1)), ("y", NestedValue::Number(2))]),
        ),
        ("new".to_string(), NestedValue::Bool(true)),
    ];
    assert_eq!(merged, expected);
}
