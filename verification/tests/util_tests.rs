use table_view::bundle::{get_column_bundles_par_row_header, ColumnBundle};
use table_view::debounce::{DebounceProps, DebounceState};
use table_view::objects::{get_mapped_object, merge_hashmaps, Objects};
use table_view::partialized_tuple::PartializedTuple;
use table_view::range::{range, range_from};
use table_view::setter::{SetStateAction, SetterUtils};
use table_view::table::dec_string;

#[test]
fn test_range_basic() {
    assert_eq!(range(0), Vec::<usize>::new());
    assert_eq!(range(1), vec![0usize]);
    assert_eq!(range(5), vec![0usize, 1, 2, 3, 4]);
}

#[test]
fn test_range_from() {
    assert_eq!(range_from(0, 5), Vec::<usize>::new());
    assert_eq!(range_from(1, 5), vec![5usize]);
    assert_eq!(range_from(5, 2), vec![2usize, 3, 4, 5, 6]);
    assert_eq!(range_from(3, 10), vec![10usize, 11, 12]);
}

#[test]
fn test_dec_string() {
    assert_eq!(dec_string(0), "0");
    assert_eq!(dec_string(7), "7");
    assert_eq!(dec_string(25), "25");
    assert_eq!(dec_string(1234), "1234");
}

#[test]
fn test_setter_to_value() {
    let action: SetStateAction<i32, fn(i32) -> i32> = SetStateAction::Value(42);
    assert_eq!(SetterUtils::to_value(action, 0), 42);

    let action = SetStateAction::<i32, _>::Function(|x: i32| x.wrapping_add(10));
    assert_eq!(SetterUtils::to_value(action, 5), 15);
}

#[test]
fn test_objects_roundtrip() {
    let obj = vec![("a".to_string(), 1i64), ("b".to_string(), 2)];
    assert_eq!(Objects::keys(&obj), vec!["a".to_string(), "b".to_string()]);
    assert_eq!(Objects::values(&obj), vec![1i64, 2]);
    assert_eq!(Objects::entries(&obj), obj);
    assert_eq!(Objects::find(&obj, &"b".to_string()), Some(2));
    assert_eq!(Objects::find(&obj, &"z".to_string()), None);
}

#[test]
fn test_objects_from_entries_keeps_last_value() {
    let entries = vec![
        ("a".to_string(), 1i64),
        ("b".to_string(), 2),
        ("a".to_string(), 3),
    ];
    let obj = Objects::from_entries(entries);
    assert_eq!(obj, vec![("a".to_string(), 3i64), ("b".to_string(), 2)]);
}

#[test]
fn test_objects_map_and_filter() {
    let obj = vec![("a".to_string(), 1i64), ("b".to_string(), 2)];
    let doubled = Objects::map(&obj, |(_k, v), _i| v.wrapping_mul(2));
    assert_eq!(doubled, vec![("a".to_string(), 2i64), ("b".to_string(), 4)]);
    let odd = Objects::filter(&obj, |(_k, v), _i| v % 2 == 1);
    assert_eq!(odd, vec![("a".to_string(), 1i64)]);
}

#[test]
fn test_objects_required() {
    let all = vec![("a".to_string(), Some(1i64)), ("b".to_string(), Some(2))];
    assert_eq!(
        Objects::required(&all),
        Some(vec![("a".to_string(), 1i64), ("b".to_string(), 2)])
    );
    let missing = vec![("a".to_string(), Some(1i64)), ("b".to_string(), None)];
    assert_eq!(Objects::required(&missing), None);
}

#[test]
fn test_merge_hashmaps() {
    let a = vec![("x".to_string(), 1i64), ("y".to_string(), 2)];
    let b = vec![("y".to_string(), 20i64), ("z".to_string(), 30)];
    let merged = merge_hashmaps(vec![a, b]);
    assert_eq!(
        merged,
        vec![("x".to_string(), 1i64), ("y".to_string(), 20), ("z".to_string(), 30)]
    );
}

#[test]
fn test_get_mapped_object() {
    let obj = vec![("a".to_string(), 3i64)];
    let mapped = get_mapped_object(&obj, |(_k, v), i| (*v as usize).wrapping_add(i));
    assert_eq!(mapped, vec![("a".to_string(), 3usize)]);
}

#[test]
fn test_partialized_tuples() {
    let xs = vec![1i64, 2, 3];
    let prefixes = xs.get_partialized_tuples();
    assert_eq!(prefixes, vec![vec![1i64], vec![1, 2], vec![1, 2, 3]]);
    let empty: Vec<i64> = Vec::new();
    assert_eq!(empty.get_partialized_tuples(), Vec::<Vec<i64>>::new());
}

#[test]
fn test_use_debounce_props_structure() {
    let props = DebounceProps { debounced_count: 5 };
    assert_eq!(props.debounced_count, 5);
    let cloned_props = props.clone();
    assert_eq!(cloned_props.debounced_count, 5);
}

#[test]
fn test_debounce_props_debug() {
    let props = DebounceProps { debounced_count: 42 };
    let debug_output = format!("{:?}", props);
    assert!(debug_output.contains("42"));
    assert!(debug_output.contains("DebounceProps"));
}

#[test]
fn test_debounce_retrigger_supersedes() {
    let mut debounce = DebounceState::new(300);
    let first = debounce.trigger();
    let second = debounce.trigger();
    // The first token was superseded; only the second fires.
    assert!(!debounce.should_fire(first));
    assert!(debounce.should_fire(second));
    assert!(debounce.try_fire(first).is_none());
    let fired = debounce.try_fire(second);
    assert_eq!(fired.map(|p| p.debounced_count), Some(2));
    // The execution is consumed.
    assert!(!debounce.should_fire(second));
}

fn col(name: &str, header: bool) -> table_view::column::ColumnOption {
    let mut option = table_view::column::default_column_option(&name.to_string());
    option.is_row_header = header;
    option
}

#[test]
fn test_column_bundles_split_on_resumed_headers() {
    let cols = vec![
        col("h1", true),
        col("h2", true),
        col("c1", false),
        col("h3", true),
        col("c2", false),
    ];
    let bundles = get_column_bundles_par_row_header(cols);
    assert_eq!(bundles.len(), 2);
    assert_eq!(bundles[0].headers.len(), 2);
    assert_eq!(bundles[0].contents.len(), 1);
    assert_eq!(bundles[0].index_until, 0);
    assert_eq!(bundles[1].headers.len(), 1);
    assert_eq!(bundles[1].contents.len(), 1);
    assert_eq!(bundles[1].index_until, 3);
    assert_eq!(bundles[1].headers[0].key, "h3");
}

#[test]
fn test_column_bundle_init_and_index_until() {
    let empty: ColumnBundle<table_view::column::ColumnOption> = ColumnBundle::init();
    assert!(empty.headers.is_empty());
    assert!(empty.contents.is_empty());
    assert_eq!(empty.index_until, 0);

    let bundles = vec![
        ColumnBundle {
            headers: vec![col("h", true)],
            contents: vec![col("c", false)],
            index_until: 0,
        },
        ColumnBundle { headers: Vec::new(), contents: Vec::new(), index_until: 2 },
    ];
    assert_eq!(ColumnBundle::get_index_until(&bundles), 2);
}
