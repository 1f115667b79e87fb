use table_view::focus::{
    get_id_from_render_index, get_molded_index, get_overflow_floored_index,
    get_render_index_from_id, FocusState,
};

#[test]
fn test_get_molded_index() {
    assert_eq!(get_molded_index(0, 5, 10), 5);
    assert_eq!(get_molded_index(0, 15, 10), 9);
    assert_eq!(get_molded_index(2, 1, 10), 2);
    assert_eq!(get_molded_index(0, 5, 0), 0);
}

#[test]
fn test_get_overflow_floored_index() {
    assert_eq!(get_overflow_floored_index(5, 10), 5);
    assert_eq!(get_overflow_floored_index(15, 10), 0);
    assert_eq!(get_overflow_floored_index(0, 10), 0);
}

#[test]
fn test_use_focus_with_string_init() {
    let focus = FocusState::new(Some("test-id".to_string()));
    assert_eq!(focus.id, Some("test-id".to_string()));
    assert!(!focus.active);
}

#[test]
fn test_use_focus_without_init() {
    let focus = FocusState::new(None);
    assert_eq!(focus.id, None);
    assert!(!focus.active);
}

#[test]
fn test_use_focus_init_function() {
    let mut focus = FocusState::new(Some("init-id".to_string()));
    focus.set_id(Some("other".to_string()));
    focus.init();
    assert_eq!(focus.id, Some("init-id".to_string()));
}

#[test]
fn test_index_id_round_trip() {
    let sorted_ids: Vec<String> = vec!["r0".to_string(), "r1".to_string(), "r2".to_string()];
    let id = get_id_from_render_index(&sorted_ids, Some(1));
    assert_eq!(id, Some("r1".to_string()));
    let index = get_render_index_from_id(&sorted_ids, &id);
    assert_eq!(index, Some(1));
    assert_eq!(get_id_from_render_index(&sorted_ids, Some(9)), None);
    assert_eq!(get_render_index_from_id(&sorted_ids, &Some("zz".to_string())), None);
}

#[test]
fn test_fallback_render_index_resets_on_none() {
    let mut focus = FocusState::new(None);
    focus.set_fallback_render_index(Some(7));
    assert_eq!(focus.fallback_render_index, 7);
    focus.set_fallback_render_index(None);
    assert_eq!(focus.fallback_render_index, 0);
}
