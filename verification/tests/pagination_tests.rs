use table_view::pagination::{max_page, use_pagination, PaginationState, UsePaginationParams};

fn derive(init: usize, disabled: Option<usize>, focused: Option<usize>) -> (
    table_view::pagination::UsePaginationResult,
    PaginationState,
) {
    let state = PaginationState::new(init, disabled);
    let result = use_pagination(
        &UsePaginationParams { init, disabled, focused_render_index: focused },
        &state,
    );
    (result, state)
}

#[test]
fn test_use_pagination_basic() {
    let (pagination, _state) = derive(10, None, Some(25));
    assert_eq!(pagination.limit, 10);
    assert_eq!(pagination.page, 2);
    assert_eq!(pagination.offset, 20);
    assert_eq!(pagination.min_page, 0);
    assert!(!pagination.disabled);
    assert_eq!(max_page(pagination.limit, 100), 10);
}

#[test]
fn test_use_pagination_disabled() {
    let (pagination, _state) = derive(10, Some(25), Some(50));
    assert_eq!(pagination.limit, 25);
    assert_eq!(pagination.page, 2);
    assert_eq!(pagination.offset, 50);
    assert!(pagination.disabled);
}

#[test]
fn test_use_pagination_zero_focused_index() {
    let (pagination, _state) = derive(10, None, None);
    assert_eq!(pagination.page, 0);
    assert_eq!(pagination.offset, 0);
}

#[test]
fn test_use_pagination_zero_limit() {
    let (pagination, _state) = derive(0, None, Some(50));
    assert_eq!(pagination.limit, 0);
    assert_eq!(pagination.page, 0);
    assert_eq!(pagination.offset, 0);
    assert_eq!(max_page(pagination.limit, 100), 0);
}

#[test]
fn test_use_pagination_set_limit() {
    let (pagination, mut state) = derive(10, None, Some(25));
    state.set_limit(20);
    // The numbers derived before the change keep their values.
    assert_eq!(pagination.limit, 10);
    // The next derivation sees the new limit.
    assert_eq!(state.limit(), 20);
}

#[test]
fn test_use_pagination_init() {
    let (pagination, mut state) = derive(15, None, Some(30));
    state.set_limit(40);
    state.init();
    assert_eq!(pagination.limit, 15);
    assert_eq!(state.limit(), 15);
}

#[test]
fn test_use_pagination_edge_cases() {
    let (pagination1, _s1) = derive(1, None, Some(5));
    assert_eq!(pagination1.page, 5);
    assert_eq!(pagination1.offset, 5);

    let (pagination2, _s2) = derive(100, None, Some(999));
    assert_eq!(pagination2.page, 9);
    assert_eq!(pagination2.offset, 900);
}

#[test]
fn test_set_limit_is_shadowed_while_disabled() {
    let mut state = PaginationState::new(10, Some(25));
    state.set_limit(50);
    // The external override still wins.
    assert_eq!(state.limit(), 25);
    assert_eq!(state.internal_limit, 50);
}
