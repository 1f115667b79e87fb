use table_view::order::Order;
use table_view::table::{
    use_table, DataWithId, DefaultPagination, FocusByIdOptions, FocusByLocalIndexOptions,
    FocusByRenderIndexOptions, TableState, UseTableParams,
};

#[derive(Clone, Debug, PartialEq, Eq, Hash)]
struct TestData {
    id: i32,
    name: String,
    value: i32,
}

fn test_rows() -> Vec<TestData> {
    vec![
        TestData { id: 1, name: "Alice".to_string(), value: 100 },
        TestData { id: 2, name: "Bob".to_string(), value: 200 },
        TestData { id: 3, name: "Carol".to_string(), value: 50 },
    ]
}

fn base_params(data: Vec<TestData>) -> UseTableParams<TestData> {
    let data_ids = Some(data.iter().map(|d| format!("item-{}", d.id)).collect());
    let sort_ranks = vec![("value".to_string(), data.iter().map(|d| d.value as u64).collect())];
    UseTableParams {
        data,
        render_map: vec![
            ("name".to_string(), table_view::column::RenderMapValue::Label("Name".to_string())),
            ("value".to_string(), table_view::column::RenderMapValue::Label("Value".to_string())),
        ],
        data_ids,
        sort_ranks,
        default_pagination: Some(DefaultPagination { limit: Some(10), auto_limit: Some(false) }),
        default_focus: None,
        default_sort: None,
        selectable: Some(true),
        select_many: Some(false),
        select_cancelable: None,
        default_select: None,
    }
}

#[test]
fn test_data_with_id() {
    let data = DataWithId {
        get: TestData { id: 1, name: "test".to_string(), value: 1 },
        id: "test-1".to_string(),
        data_index: 0,
        render_index: Some(0),
        local_index: Some(0),
    };

    assert_eq!(data.id, "test-1".to_string());
    assert_eq!(data.data_index, 0);
    assert_eq!(data.render_index, Some(0));
    assert_eq!(data.local_index, Some(0));
}

#[test]
fn test_default_pagination() {
    let pagination = DefaultPagination { limit: Some(20), auto_limit: Some(true) };

    assert_eq!(pagination.limit, Some(20));
    assert_eq!(pagination.auto_limit, Some(true));
}

#[test]
fn test_use_table_basic() {
    let params = base_params(test_rows());
    let state = TableState::from_params(&params);
    let table = use_table(&params, &state);

    assert_eq!(table.data_length, 3);
    assert!(!table.select_many);
    assert_eq!(table.sort_orders.len(), 0);
    // With no sort entries, the rows keep the original order and carry
    // their IDs and indices.
    let ids: Vec<&str> = table.sorted_data.iter().map(|r| r.id.as_str()).collect();
    assert_eq!(ids, vec!["item-1", "item-2", "item-3"]);
    assert_eq!(table.sorted_data[1].data_index, 1);
    assert_eq!(table.sorted_data[1].render_index, Some(1));
    assert_eq!(table.sorted_data[1].local_index, None);
    assert_eq!(table.paginated_data.len(), 3);
    assert_eq!(table.paginated_data[2].local_index, Some(2));
    assert_eq!(table.virtualized_data.len(), 3);
}

#[test]
fn test_use_table_with_selection() {
    let mut params = base_params(vec![TestData {
        id: 1,
        name: "Alice".to_string(),
        value: 100,
    }]);
    // Use the default row IDs (the stringified raw index).
    params.data_ids = None;
    params.default_focus = Some("item-0".to_string());
    params.select_many = Some(true);
    params.select_cancelable = Some(true);
    params.default_select = Some(vec!["item-0".to_string()]);

    let state = TableState::from_params(&params);
    let table = use_table(&params, &state);

    assert!(table.select_many);
    // No row carries the ID "item-0" under the default IDs.
    assert_eq!(table.selected_data.len(), 0);
    assert!(table.focused_data.is_none());
    assert_eq!(table.sorted_data[0].id, "0".to_string());
}

#[test]
fn test_use_table_sorts_by_declared_default() {
    let mut params = base_params(test_rows());
    params.default_sort = Some(vec![("value".to_string(), Order::Asc)]);
    let state = TableState::from_params(&params);
    let table = use_table(&params, &state);
    let values: Vec<i32> = table.sorted_data.iter().map(|r| r.get.value).collect();
    assert_eq!(values, vec![50, 100, 200]);
    assert_eq!(table.sorted_data[0].data_index, 2);
}

#[test]
fn test_use_table_pagination_follows_focus() {
    let mut params = base_params(test_rows());
    params.default_pagination = Some(DefaultPagination { limit: Some(2), auto_limit: Some(false) });
    params.default_focus = Some("item-3".to_string());
    let state = TableState::from_params(&params);
    let table = use_table(&params, &state);
    // The focused row has render index 2; with 2 rows per page it lies on
    // page 1, offset 2.
    assert_eq!(table.focused_render_index, Some(2));
    assert_eq!(table.pagination.page, 1);
    assert_eq!(table.pagination.offset, 2);
    assert_eq!(table.paginated_data.len(), 1);
    assert_eq!(table.paginated_data[0].id, "item-3");
    assert_eq!(table.paginated_data[0].local_index, Some(0));
}

#[test]
fn test_focus_by_render_index_molds_into_range() {
    let params = base_params(test_rows());
    let mut state = TableState::from_params(&params);
    let table = use_table(&params, &state);
    let sorted_ids: Vec<String> = table.sorted_data.iter().map(|r| r.id.clone()).collect();

    state.focus_by_render_index(15, FocusByRenderIndexOptions::default(), &sorted_ids);
    assert_eq!(state.focus.id, Some("item-3".to_string()));

    state.focus_by_render_index(0, FocusByRenderIndexOptions::default(), &sorted_ids);
    assert_eq!(state.focus.id, Some("item-1".to_string()));
}

#[test]
fn test_focus_by_id_selects_the_focused_row() {
    let params = base_params(test_rows());
    let mut state = TableState::from_params(&params);
    // Single-select table: focusing a row selects it by default.
    state.focus_by_id(Some("item-2".to_string()), FocusByIdOptions::default());
    assert_eq!(state.focus.id, Some("item-2".to_string()));
    assert_eq!(state.selection.ids, vec!["item-2".to_string()]);
    assert!(state.focus.scroll_reserved);
}

#[test]
fn test_focus_by_local_index_floors_overflow() {
    let params = base_params(test_rows());
    let mut state = TableState::from_params(&params);
    let page_ids: Vec<String> =
        vec!["item-1".to_string(), "item-2".to_string(), "item-3".to_string()];
    let options = FocusByLocalIndexOptions {
        molded: Some(true),
        floor_overflow: Some(true),
        base: Some(FocusByIdOptions { without_scroll: Some(true), with_select: Some(false) }),
    };
    state.focus_by_local_index(Some(7), options, &page_ids);
    // An overflowing local index wraps to the first row of the page.
    assert_eq!(state.focus.id, Some("item-1".to_string()));
    assert!(!state.focus.scroll_reserved);
    assert!(state.selection.ids.is_empty());
}

#[test]
fn test_set_page_moves_focus_to_same_slot() {
    let params = base_params(test_rows());
    let mut state = TableState::from_params(&params);
    let sorted_ids: Vec<String> =
        vec!["item-1".to_string(), "item-2".to_string(), "item-3".to_string()];
    state.focus_by_id(Some("item-1".to_string()), FocusByIdOptions::default());
    // Page size 1: moving to page 2 lands on the third row.
    state.set_page(2, 1, false, &sorted_ids);
    assert_eq!(state.focus.id, Some("item-3".to_string()));
}

#[test]
fn test_keep_select_falls_back_to_last_remaining_row() {
    let params = base_params(test_rows());
    let mut state = TableState::from_params(&params);
    let sorted_ids: Vec<String> =
        vec!["item-1".to_string(), "item-2".to_string(), "item-3".to_string()];
    // The only selected row is removed: the selection falls back to the
    // last remaining row.
    state.selection.set_ids(vec!["item-2".to_string()]);
    state.keep_select_by_removed_ids(&vec!["item-2".to_string()], &sorted_ids);
    assert_eq!(state.selection.ids, vec!["item-3".to_string()]);
}

#[test]
fn test_keep_select_keeps_surviving_rows() {
    let mut params = base_params(test_rows());
    params.select_many = Some(true);
    params.select_cancelable = Some(true);
    let mut state = TableState::from_params(&params);
    let sorted_ids: Vec<String> =
        vec!["item-1".to_string(), "item-2".to_string(), "item-3".to_string()];
    state.selection.set_ids(vec!["item-1".to_string(), "item-2".to_string()]);
    state.keep_select_by_removed_ids(&vec!["item-2".to_string()], &sorted_ids);
    // The surviving row stays selected; the removed one falls to the
    // survivor at its old render position, which is now the last row.
    assert_eq!(
        state.selection.ids,
        vec!["item-1".to_string(), "item-3".to_string()]
    );
}

#[test]
fn test_table_init_restores_every_engine() {
    let mut params = base_params(test_rows());
    params.default_focus = Some("item-1".to_string());
    let mut state = TableState::from_params(&params);
    state.focus_by_id(Some("item-2".to_string()), FocusByIdOptions::default());
    state.sort.set_order(&"value".to_string(), Order::Desc);
    state.pagination.set_limit(50);
    state.init();
    assert_eq!(state.focus.id, Some("item-1".to_string()));
    assert_eq!(state.sort.order_entries.len(), 0);
    assert_eq!(state.pagination.internal_limit, 10);
    assert_eq!(state.selection.ids.len(), 0);
}

#[test]
fn test_focus_by_id_options_default() {
    let options = FocusByIdOptions::default();
    assert_eq!(options.without_scroll, Some(false));
    assert!(options.with_select.is_none());
}

#[test]
fn test_focus_by_render_index_options_default() {
    let options = FocusByRenderIndexOptions::default();
    assert_eq!(options.fallback, Some(false));
    assert!(options.molded.is_none());
    assert!(options.base.is_none());
}

#[test]
fn test_focus_by_local_index_options_default() {
    let options = FocusByLocalIndexOptions::default();
    assert_eq!(options.molded, Some(true));
    assert_eq!(options.floor_overflow, Some(false));
    assert!(options.base.is_none());
}
