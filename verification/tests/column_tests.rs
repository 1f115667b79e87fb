use table_view::column::{
    default_column_option, get_column_option_map, get_default_align, get_label_map,
    is_column_option_args_object, CellValue, ColumnOptionArgs, RenderMapValue,
};
use table_view::column_widths::ColumnWidthsState;
use table_view::order::Order;

fn bare_args(label: &str) -> ColumnOptionArgs {
    ColumnOptionArgs {
        label: label.to_string(),
        is_row_header: None,
        init_sort_order: None,
        sort_order_is_changeable: None,
        is_hidden: None,
        init_column_width: None,
        align: None,
        total: None,
    }
}

#[test]
fn test_get_label_map() {
    let render_map = vec![
        ("key1".to_string(), RenderMapValue::Label("Label1".to_string())),
        ("key2".to_string(), RenderMapValue::Options(bare_args("Label2"))),
    ];
    let label_map = get_label_map(&render_map);
    assert_eq!(label_map[0], ("key1".to_string(), "Label1".to_string()));
    assert_eq!(label_map[1], ("key2".to_string(), "Label2".to_string()));
}

#[test]
fn test_get_column_option_map() {
    let render_map = vec![("key1".to_string(), RenderMapValue::Label("Label1".to_string()))];
    let column_option_map = get_column_option_map(&render_map);
    assert_eq!(column_option_map.len(), 1);
    assert_eq!(column_option_map[0].0, "key1".to_string());
    let option = &column_option_map[0].1;
    assert_eq!(option.label, "Label1");
    assert_eq!(option.key, "key1");
}

#[test]
fn test_default_column_option() {
    let option = default_column_option(&"test_key".to_string());
    assert_eq!(option.key, "test_key");
    assert_eq!(option.label, "");
    assert!(!option.is_row_header);
    assert_eq!(option.init_sort_order, Order::NoSort);
    assert!(option.sort_order_is_changeable);
    assert!(!option.is_hidden);
    assert_eq!(option.init_column_width, "minmax(max-content, 1fr)");
    assert_eq!(option.align, "left");
    assert!(!option.total);
}

#[test]
fn test_underscore_key_not_changeable() {
    let option = default_column_option(&"_internal_key".to_string());
    assert!(!option.sort_order_is_changeable);

    let option2 = default_column_option(&"normal_key".to_string());
    assert!(option2.sort_order_is_changeable);
}

#[test]
fn test_get_default_align() {
    let num_val = CellValue::Int(42);
    let str_val = CellValue::Text("hello".to_string());
    assert_eq!(get_default_align(&num_val), "right");
    assert_eq!(get_default_align(&str_val), "left");
}

#[test]
fn test_bare_label_map_round_trip() {
    // A render map of bare labels yields the labels and otherwise the
    // documented defaults, key by key.
    let labels = ["One", "Two", "Three"];
    let render_map: Vec<(String, RenderMapValue)> = labels
        .iter()
        .enumerate()
        .map(|(i, l)| (format!("k{}", i), RenderMapValue::Label(l.to_string())))
        .collect();
    let options = get_column_option_map(&render_map);
    assert_eq!(options.len(), 3);
    for (i, (key, option)) in options.iter().enumerate() {
        assert_eq!(key, &format!("k{}", i));
        assert_eq!(option.label, labels[i]);
        assert!(!option.is_row_header);
        assert_eq!(option.init_sort_order, Order::NoSort);
        assert!(option.sort_order_is_changeable);
        assert!(!option.is_hidden);
        assert_eq!(option.init_column_width, "minmax(max-content, 1fr)");
        assert_eq!(option.align, "left");
        assert!(!option.total);
    }
}

#[test]
fn test_declared_fields_override_defaults() {
    let mut args = bare_args("Custom");
    args.init_sort_order = Some(Order::Desc);
    args.align = Some("right".to_string());
    args.is_hidden = Some(true);
    let render_map = vec![("c".to_string(), RenderMapValue::Options(args))];
    let options = get_column_option_map(&render_map);
    let option = &options[0].1;
    assert_eq!(option.init_sort_order, Order::Desc);
    assert_eq!(option.align, "right");
    assert!(option.is_hidden);
    assert!(!option.total);
}

#[test]
fn test_is_column_option_args_object() {
    assert!(!is_column_option_args_object(&RenderMapValue::Label("x".to_string())));
    assert!(is_column_option_args_object(&RenderMapValue::Options(bare_args("x"))));
}

fn width_of(state: &ColumnWidthsState, key: &str) -> Option<Option<String>> {
    state.widths.iter().find(|(k, _)| k == key).map(|(_, w)| w.clone())
}

#[test]
fn test_use_column_widths_initialization() {
    let mut option1 = default_column_option(&"col1".to_string());
    option1.init_column_width = "200px".to_string();
    let mut option2 = default_column_option(&"col2".to_string());
    option2.init_column_width = "150px".to_string();
    let map = vec![("col1".to_string(), option1), ("col2".to_string(), option2)];
    let widths = ColumnWidthsState::new(&map);
    assert_eq!(width_of(&widths, "col1"), Some(Some("200px".to_string())));
    assert_eq!(width_of(&widths, "col2"), Some(Some("150px".to_string())));
}

#[test]
fn test_use_column_widths_set_by_key() {
    let option = default_column_option(&"col1".to_string());
    let map = vec![("col1".to_string(), option)];
    let mut widths = ColumnWidthsState::new(&map);
    widths.set_by_key("col1".to_string(), Some("300px".to_string()));
    assert_eq!(width_of(&widths, "col1"), Some(Some("300px".to_string())));
}

#[test]
fn test_use_column_widths_init() {
    let mut option = default_column_option(&"col1".to_string());
    option.init_column_width = "200px".to_string();
    let map = vec![("col1".to_string(), option)];
    let mut widths = ColumnWidthsState::new(&map);
    widths.set_by_key("col1".to_string(), None);
    widths.init();
    assert_eq!(width_of(&widths, "col1"), Some(Some("200px".to_string())));
    assert!(!widths.widths.is_empty());
}

#[test]
fn test_use_column_widths_set() {
    let option = default_column_option(&"col1".to_string());
    let map = vec![("col1".to_string(), option)];
    let mut widths = ColumnWidthsState::new(&map);
    let new_widths = vec![
        ("col1".to_string(), Some("400px".to_string())),
        ("col2".to_string(), None),
    ];
    widths.set(new_widths);
    assert!(!widths.widths.is_empty());
    assert_eq!(width_of(&widths, "col1"), Some(Some("400px".to_string())));
    assert_eq!(width_of(&widths, "col2"), Some(None));
}
