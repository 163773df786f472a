use std::collections::HashSet;

use vision_quest::actions::{run, Action, Effect, Message};
use vision_quest::state::{HistoryAction, HistoryItem, HistoryState, State, Status};

fn action(domain: &str, invocation: &str, message: Message, sender: &str) -> Action {
    Action {
        domain: String::from(domain),
        invocation: String::from(invocation),
        message,
        sender: String::from(sender),
    }
}

fn item(n: &str) -> HistoryItem {
    HistoryItem::new(
        HistoryAction::new(String::from("d"), String::from(n), String::from("{}")),
        HistoryState::new(String::from("t"), String::from("{}")),
    )
}

fn apply(state: State, a: Action) -> State {
    let (next, _) = run(a, state).unwrap();
    next
}

#[test]
fn client_add_registers_and_starts_framing() {
    let state = State::new();
    let (state, effect) = run(
        action("client", "add", Message::Client(7), "A"),
        state,
    )
    .unwrap();
    assert_eq!(state.client_amount(), 1);
    assert!(matches!(effect, Effect::StartFraming(7)));
}

#[test]
fn two_interleaved_connections_register_and_append() {
    // One of the possible arrival orders: A registers, B registers,
    // B's item, A's item.
    let mut state = State::new();
    state = apply(state, action("client", "add", Message::Client(1), "A"));
    state = apply(state, action("client", "add", Message::Client(2), "B"));
    state = apply(state, action("item", "add", Message::HistoryItem(item("b1")), "B"));
    state = apply(state, action("item", "add", Message::HistoryItem(item("a1")), "A"));
    assert_eq!(state.client_amount(), 2);
    assert_eq!(state.total_history_item_amount(), 2);

    // Another order: the registrations and items strictly alternate.
    let mut state = State::new();
    state = apply(state, action("client", "add", Message::Client(1), "A"));
    state = apply(state, action("item", "add", Message::HistoryItem(item("a1")), "A"));
    state = apply(state, action("client", "add", Message::Client(2), "B"));
    state = apply(state, action("item", "add", Message::HistoryItem(item("b1")), "B"));
    assert_eq!(state.client_amount(), 2);
    assert_eq!(state.total_history_item_amount(), 2);
}

#[test]
fn item_add_for_unknown_sender_is_dropped() {
    let mut state = State::new();
    state = apply(state, action("item", "add", Message::HistoryItem(item("x")), "A"));
    assert_eq!(state.client_amount(), 0);
    assert_eq!(state.total_history_item_amount(), 0);
}

#[test]
fn receive_decodes_and_resubmits() {
    let mut state = State::new();
    state = apply(state, action("client", "add", Message::Client(1), "A"));

    let line = r#"{"Domain":"item","Invocation":"add","Payload":{"HistoryItem":{"Domain":"d","Invocation":"i","Amplitude":"{}","StateType":"t","State":"{}"}}}"#;
    let (state, effect) = run(
        action("client", "receive", Message::Raw(String::from(line)), "A"),
        state,
    )
    .unwrap();
    // The raw phase itself must not touch the state.
    assert_eq!(state.total_history_item_amount(), 0);

    // The derived action is re-enqueued; applying it appends the item.
    let derived = match effect {
        Effect::Resubmit(derived) => derived,
        _ => panic!("expected a resubmitted action"),
    };
    assert_eq!(derived.domain, "item");
    assert_eq!(derived.invocation, "add");
    assert_eq!(derived.sender, "A");
    let state = apply(state, derived);
    assert_eq!(state.total_history_item_amount(), 1);
}

#[test]
fn receive_of_malformed_line_reports_and_continues() {
    let mut state = State::new();
    state = apply(state, action("client", "add", Message::Client(1), "A"));
    let (state, effect) = run(
        action("client", "receive", Message::Raw(String::from("garbage")), "A"),
        state,
    )
    .unwrap();
    let report = match effect {
        Effect::Report(report) => report,
        _ => panic!("expected a decode report"),
    };
    assert_eq!(report.line, "garbage");
    assert_eq!(report.sender, "A");
    assert_eq!(state.client_amount(), 1);
    // The dispatcher goes on: the next action still applies.
    let state = apply(state, action("item", "add", Message::HistoryItem(item("x")), "A"));
    assert_eq!(state.total_history_item_amount(), 1);
}

#[test]
fn select_routes_by_the_message_client_id() {
    let mut state = State::new();
    state = apply(state, action("client", "add", Message::Client(1), "A"));
    state = apply(state, action("item", "add", Message::HistoryItem(item("x")), "A"));
    let mut indices = HashSet::new();
    indices.insert(0usize);
    state = apply(
        state,
        action(
            "action",
            "select",
            Message::SelectAction((String::from("A"), indices)),
            "ui",
        ),
    );
    assert!(state.clients[0].history[0].selected);
}

#[test]
fn quit_is_terminal() {
    let mut state = State::new();
    state = apply(state, action("application", "quit", Message::Empty, "ui"));
    assert_eq!(state.status, Status::ShuttingDown);
    // A subsequently applied action does not revert it.
    state = apply(state, action("ping", "pong", Message::Empty, "A"));
    assert_eq!(state.status, Status::ShuttingDown);
    state = apply(state, action("client", "add", Message::Client(3), "C"));
    assert_eq!(state.status, Status::ShuttingDown);
}

#[test]
fn unmatched_pair_is_an_error() {
    let state = State::new();
    let err = run(action("no", "handler", Message::Empty, "A"), state).unwrap_err();
    assert_eq!(err.domain, "no");
    assert_eq!(err.invocation, "handler");
}

#[test]
fn message_accessors_return_the_payload() {
    assert_eq!(Message::Raw(String::from("x")).expect_raw(), "x");
    assert_eq!(Message::Json(String::from("j")).expect_json(), "j");
    assert_eq!(Message::Client(9).expect_client(), 9);
    let (id, sel) =
        Message::SelectAction((String::from("A"), HashSet::new())).expect_select_action();
    assert_eq!(id, "A");
    assert!(sel.is_empty());
    let it = Message::HistoryItem(item("z")).expect_history_item();
    assert_eq!(it.action.invocation, "z");
}

#[test]
fn ping_pong_changes_nothing() {
    let mut state = State::new();
    state = apply(state, action("client", "add", Message::Client(1), "A"));
    state = apply(state, action("ping", "pong", Message::Empty, "A"));
    assert_eq!(state.client_amount(), 1);
    assert_eq!(state.status, Status::Initializing);
}
