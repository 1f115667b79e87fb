use table_view::select::SelectionState;

fn ids(xs: &[&str]) -> Vec<String> {
    xs.iter().map(|s| s.to_string()).collect()
}

#[test]
fn test_single_select_caps_at_first_id() {
    let mut selection = SelectionState::new(Vec::new(), false, true, false);
    let result = selection.set_ids(ids(&["a", "b", "c"]));
    assert!(!result.default_prevented);
    assert_eq!(selection.ids, ids(&["a"]));
}

#[test]
fn test_multi_select_keeps_every_id() {
    let mut selection = SelectionState::new(Vec::new(), true, true, true);
    selection.set_ids(ids(&["a", "b", "c"]));
    assert_eq!(selection.ids, ids(&["a", "b", "c"]));
}

#[test]
fn test_unchangeable_selection_ignores_set_ids() {
    let mut selection = SelectionState::new(ids(&["x"]), true, false, true);
    selection.set_ids(ids(&["a", "b"]));
    assert_eq!(selection.ids, ids(&["x"]));
}

#[test]
fn test_uncancelable_toggle_keeps_selected_id() {
    let mut selection = SelectionState::new(ids(&["a"]), false, true, false);
    selection.toggle_by_id(&"a".to_string());
    assert_eq!(selection.ids, ids(&["a"]));
    let result = selection.set_by_id(&"a".to_string(), false);
    assert!(!result.default_prevented);
    assert_eq!(selection.ids, ids(&["a"]));
}

#[test]
fn test_newly_selected_id_enters_at_the_front() {
    let mut selection = SelectionState::new(ids(&["a"]), true, true, true);
    selection.set_by_id(&"b".to_string(), true);
    assert_eq!(selection.ids, ids(&["b", "a"]));
}

#[test]
fn test_deselect_removes_the_id() {
    let mut selection = SelectionState::new(ids(&["b", "a"]), true, true, true);
    selection.set_by_id(&"b".to_string(), false);
    assert_eq!(selection.ids, ids(&["a"]));
}

#[test]
fn test_vetoed_change_commits_nothing() {
    let mut selection = SelectionState::new(ids(&["a"]), true, true, true);
    let result = selection.set_ids_checked(ids(&["b"]), true);
    assert!(result.default_prevented);
    assert_eq!(selection.ids, ids(&["a"]));
}

#[test]
fn test_veto_without_change_is_ignored() {
    let mut selection = SelectionState::new(ids(&["a"]), true, true, true);
    let result = selection.set_ids_checked(ids(&["a"]), true);
    assert!(!result.default_prevented);
    assert_eq!(selection.ids, ids(&["a"]));
}

#[test]
fn test_unset_all_clears_the_selection() {
    let mut selection = SelectionState::new(ids(&["a", "b"]), true, true, true);
    selection.unset_all();
    assert!(selection.ids.is_empty());
}

#[test]
fn test_selection_init_restores_the_initial_ids() {
    let mut selection = SelectionState::new(ids(&["a"]), true, true, true);
    selection.set_ids(ids(&["b", "c"]));
    selection.init();
    assert_eq!(selection.ids, ids(&["a"]));
}
