use table_view::virtual_scroll::{
    get_offset_px_by_index, get_virtualized, get_virtualized_with_index, use_virtual_scroll,
    UseVirtualScrollParams, VirtualScrollProps, VirtualScrollState, VirtualizedDataWithIndex,
};

fn params(content_length: usize, over_scan: usize) -> UseVirtualScrollParams {
    UseVirtualScrollParams {
        default_content_height_px: 35,
        content_length,
        over_scan: Some(over_scan),
        view_height_px: None,
    }
}

#[test]
fn test_use_virtual_scroll_basic() {
    let state = VirtualScrollState::new(100);
    let result = use_virtual_scroll(&params(100, 5), &state);
    assert_eq!(result.view_offset, 0);
    assert!(result.props.max_height_px > 0);
    assert_eq!(result.props.max_height_px, 100 * 35);
    assert_eq!(result.props.before_height_px, 0);
    // Ten sample heights fit in the default viewport.
    assert_eq!(result.view_limit, 10);
    assert_eq!(result.render_limit, 15);
}

#[test]
fn test_virtual_scroll_props() {
    let props = VirtualScrollProps { before_height_px: 100, max_height_px: 3500 };
    assert_eq!(props.before_height_px, 100);
    assert_eq!(props.max_height_px, 3500);
}

#[test]
fn test_virtualized_data_with_index() {
    let data = VirtualizedDataWithIndex { get: "test".to_string(), data_index: 5 };
    assert_eq!(data.get, "test");
    assert_eq!(data.data_index, 5);
}

#[test]
fn test_get_virtualized_with_empty_data() {
    let state = VirtualScrollState::new(0);
    let result = use_virtual_scroll(&params(0, 5), &state);
    let data: Vec<String> = vec![];
    let virtualized = get_virtualized(&result, &data);
    assert!(virtualized.is_empty());
    let virtualized_with_index = get_virtualized_with_index(&result, &data);
    assert!(virtualized_with_index.is_empty());
}

#[test]
fn test_empty_content_ignores_any_input_rows() {
    // With no content, the window is empty whatever array is handed in.
    let state = VirtualScrollState::new(0);
    let result = use_virtual_scroll(&params(0, 5), &state);
    let data: Vec<String> = (0..10).map(|i| format!("Item {}", i)).collect();
    assert!(get_virtualized(&result, &data).is_empty());
}

#[test]
fn test_get_virtualized_with_data() {
    let state = VirtualScrollState::new(10);
    let result = use_virtual_scroll(&params(10, 2), &state);
    let data: Vec<String> = (0..10).map(|i| format!("Item {}", i)).collect();
    let virtualized = get_virtualized(&result, &data);
    assert!(!virtualized.is_empty());
    assert!(virtualized.len() <= data.len());
}

#[test]
fn test_scrolling_moves_the_window() {
    let mut state = VirtualScrollState::new(100);
    // 3 rows of 35 px lie above a 105 px scroll offset.
    state.set_offset_on_scroll(105);
    let result = use_virtual_scroll(&params(100, 2), &state);
    assert_eq!(result.view_offset, 3);
    assert_eq!(result.render_offset, 1);
    assert_eq!(result.props.before_height_px, 35);
}

#[test]
fn test_measured_heights_enter_the_sums() {
    let mut state = VirtualScrollState::new(3);
    state.set_height(0, 50);
    state.set_height(1, 10);
    // Row 2 is unmeasured and counts with the sample height, the first
    // measured positive height: 50.
    assert_eq!(get_offset_px_by_index(&state, 35, 3), 50 + 10 + 50);
    assert_eq!(get_offset_px_by_index(&state, 35, 1), 50);
}
