use table_view::order::Order;
use table_view::sort::{sort, get_sorted_by_indices, SortState};

fn state_of(entries: Vec<(&str, Order)>) -> SortState {
    let owned: Vec<(String, Order)> = entries.into_iter().map(|(k, o)| (k.to_string(), o)).collect();
    SortState::new(owned)
}

fn entry_pairs(state: &SortState) -> Vec<(String, Order)> {
    state.order_entries.clone()
}

#[test]
fn test_order_from_str_and_to_str() {
    assert_eq!(Order::from_str("asc"), Ok(Order::Asc));
    assert_eq!(Order::from_str("desc"), Ok(Order::Desc));
    assert_eq!(Order::from_str("none"), Ok(Order::NoSort));
    assert_eq!(Order::from_str("sideways"), Err(()));
    assert_eq!(Order::Asc.to_str(), "asc");
    assert_eq!(Order::Desc.to_str(), "desc");
    assert_eq!(Order::NoSort.to_str(), "none");
}

#[test]
fn test_set_order_moves_key_to_front() {
    let mut state = state_of(vec![("a", Order::Asc), ("b", Order::Desc)]);
    state.set_order(&"b".to_string(), Order::Asc);
    let entries = entry_pairs(&state);
    assert_eq!(entries.len(), 2);
    assert_eq!(entries[0], ("b".to_string(), Order::Asc));
    assert_eq!(entries[1], ("a".to_string(), Order::Asc));
}

#[test]
fn test_set_order_once_resets_other_columns() {
    let mut state = state_of(vec![("a", Order::Asc), ("b", Order::Desc), ("c", Order::Asc)]);
    state.set_order_once(&"k".to_string(), Order::Asc);
    let entries = entry_pairs(&state);
    assert_eq!(entries[0], ("k".to_string(), Order::Asc));
    for entry in entries.iter().skip(1) {
        assert_eq!(entry.1, Order::NoSort);
    }
    let active: Vec<(String, Order)> =
        entries.into_iter().filter(|e| e.1 != Order::NoSort).collect();
    assert_eq!(active, vec![("k".to_string(), Order::Asc)]);
}

#[test]
fn test_shift_order_cycles_back_to_none() {
    let mut state = state_of(vec![("a", Order::NoSort)]);
    let key = "a".to_string();
    state.shift_order(&key);
    assert_eq!(state.order_of(&key), Order::Asc);
    state.shift_order(&key);
    assert_eq!(state.order_of(&key), Order::Desc);
    state.shift_order(&key);
    assert_eq!(state.order_of(&key), Order::NoSort);
}

#[test]
fn test_sort_by_single_ascending_column() {
    // Records with values [30, 10, 20] under column "v".
    let state = state_of(vec![("v", Order::Asc)]);
    let comparators = vec![("v".to_string(), vec![30u64, 10, 20])];
    let perm = sort(&state, &comparators, 3);
    assert_eq!(perm, vec![1, 2, 0]);
}

#[test]
fn test_sort_descending_reverses_the_comparator() {
    let state = state_of(vec![("v", Order::Desc)]);
    let comparators = vec![("v".to_string(), vec![30u64, 10, 20])];
    let perm = sort(&state, &comparators, 3);
    assert_eq!(perm, vec![0, 2, 1]);
}

#[test]
fn test_sort_skips_none_columns() {
    let state = state_of(vec![("v", Order::NoSort)]);
    let comparators = vec![("v".to_string(), vec![30u64, 10, 20])];
    let perm = sort(&state, &comparators, 3);
    assert_eq!(perm, vec![0, 1, 2]);
}

#[test]
fn test_sort_is_stable_on_ties() {
    // Rows 0, 2 and 3 tie under the only active column; they keep their
    // original relative order.
    let state = state_of(vec![("v", Order::Asc)]);
    let comparators = vec![("v".to_string(), vec![5u64, 1, 5, 5])];
    let perm = sort(&state, &comparators, 4);
    assert_eq!(perm, vec![1, 0, 2, 3]);
}

#[test]
fn test_sort_first_entry_is_primary() {
    // Primary column "a" groups rows; secondary column "b" orders ties.
    let state = state_of(vec![("a", Order::Asc), ("b", Order::Desc)]);
    let comparators = vec![
        ("a".to_string(), vec![2u64, 1, 2, 1]),
        ("b".to_string(), vec![7u64, 5, 9, 6]),
    ];
    let perm = sort(&state, &comparators, 4);
    assert_eq!(perm, vec![3, 1, 2, 0]);
}

#[test]
fn test_get_sorted_by_indices_applies_the_permutation() {
    let data = vec!["c".to_string(), "a".to_string(), "b".to_string()];
    let perm = vec![1usize, 2, 0];
    let sorted = get_sorted_by_indices(&data, &perm);
    assert_eq!(sorted, vec!["a".to_string(), "b".to_string(), "c".to_string()]);
}

#[test]
fn test_sort_state_init_restores_initial_entries() {
    let mut state = state_of(vec![("a", Order::Asc)]);
    state.set_order(&"b".to_string(), Order::Desc);
    state.init();
    assert_eq!(entry_pairs(&state), vec![("a".to_string(), Order::Asc)]);
}
