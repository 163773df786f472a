use std::collections::HashSet;

use vision_quest::state::{Client, HistoryAction, HistoryItem, HistoryState, State, Status};

fn item(n: &str) -> HistoryItem {
    HistoryItem::new(
        HistoryAction::new(String::from("d"), String::from(n), String::from("{}")),
        HistoryState::new(String::from("t"), String::from("{}")),
    )
}

fn set_of(indices: &[usize]) -> HashSet<usize> {
    let mut s = HashSet::new();
    for i in indices {
        s.insert(*i);
    }
    s
}

#[test]
fn new_state_is_empty_and_initializing() {
    let state = State::new();
    assert_eq!(state.client_amount(), 0);
    assert_eq!(state.total_history_item_amount(), 0);
    assert_eq!(state.status, Status::Initializing);
}

#[test]
fn add_client_twice_equals_once() {
    let mut state = State::new();
    state.add_client(String::from("A"));
    state.add_client(String::from("A"));
    assert_eq!(state.client_amount(), 1);
    assert_eq!(state.clients[0].id, "A");
    assert_eq!(state.clients[0].history_item_amount(), 0);
    assert!(state.clients[0].selections.is_empty());
}

#[test]
fn add_history_item_to_unknown_id_is_a_no_op() {
    let mut state = State::new();
    state.add_client(String::from("A"));
    state.add_history_item(String::from("B"), item("one"));
    assert_eq!(state.client_amount(), 1);
    assert_eq!(state.total_history_item_amount(), 0);
}

#[test]
fn update_selection_sets_exactly_the_in_range_indices() {
    let mut state = State::new();
    state.add_client(String::from("A"));
    state.add_history_item(String::from("A"), item("one"));
    state.add_history_item(String::from("A"), item("two"));
    state.add_history_item(String::from("A"), item("three"));

    state.update_selection(String::from("A"), set_of(&[2]));
    let client = &state.clients[0];
    assert!(!client.history[0].selected);
    assert!(!client.history[1].selected);
    assert!(client.history[2].selected);
    assert!(client.history[2].action.selected);
    assert!(client.history[2].state.selected);

    state.update_selection(String::from("A"), set_of(&[5]));
    let client = &state.clients[0];
    assert!(!client.history[0].selected);
    assert!(!client.history[1].selected);
    assert!(!client.history[2].selected);
    assert!(client.selected_history_item().is_none());
}

#[test]
fn remove_client_then_append_drops_the_item() {
    let mut state = State::new();
    state.add_client(String::from("A"));
    state.add_history_item(String::from("A"), item("one"));
    state.remove_client(String::from("A"));
    assert_eq!(state.client_amount(), 0);
    state.add_history_item(String::from("A"), item("two"));
    assert_eq!(state.client_amount(), 0);
    assert_eq!(state.total_history_item_amount(), 0);
}

#[test]
fn remove_client_keeps_the_others() {
    let mut state = State::new();
    state.add_client(String::from("A"));
    state.add_client(String::from("B"));
    state.add_history_item(String::from("B"), item("one"));
    state.remove_client(String::from("A"));
    assert_eq!(state.client_amount(), 1);
    assert_eq!(state.clients[0].id, "B");
    assert_eq!(state.total_history_item_amount(), 1);
}

#[test]
fn totals_sum_over_all_clients() {
    let mut state = State::new();
    state.add_client(String::from("A"));
    state.add_client(String::from("B"));
    state.add_history_item(String::from("A"), item("one"));
    state.add_history_item(String::from("B"), item("two"));
    state.add_history_item(String::from("B"), item("three"));
    assert_eq!(state.client_amount(), 2);
    assert_eq!(state.total_history_item_amount(), 3);
}

#[test]
fn select_and_deselect_move_all_three_flags() {
    let mut it = item("one");
    assert!(!it.selected && !it.action.selected && !it.state.selected);
    it.select();
    assert!(it.selected && it.action.selected && it.state.selected);
    it.deselect();
    assert!(!it.selected && !it.action.selected && !it.state.selected);
}

#[test]
fn selected_history_item_finds_the_first_selected() {
    let mut client = Client::new(String::from("A"));
    client.push(item("one"));
    client.push(item("two"));
    assert!(client.selected_history_item().is_none());
    client.update_selections(set_of(&[1]));
    let found = client.selected_history_item().unwrap();
    assert_eq!(found.action.invocation, "two");
}

#[test]
fn clear_drops_the_history_only() {
    let mut client = Client::new(String::from("A"));
    client.push(item("one"));
    assert_eq!(client.history_item_amount(), 1);
    client.clear();
    assert_eq!(client.history_item_amount(), 0);
    assert_eq!(client.id, "A");
}
