//! The whole ingestion path in one piece: raw chunks are framed into lines,
//! each line is decoded, and the derived actions drive the reducer.

use vision_quest::actions::{run, Action, Effect, Message};
use vision_quest::framing::FrameReader;
use vision_quest::state::{State, Status};

fn raw_action(line: String, sender: &str) -> Action {
    Action {
        domain: String::from("client"),
        invocation: String::from("receive"),
        message: Message::Raw(line),
        sender: String::from(sender),
    }
}

#[test]
fn chunks_to_lines_to_actions_to_state() {
    let mut state = State::new();
    let (next, effect) = run(
        Action {
            domain: String::from("client"),
            invocation: String::from("add"),
            message: Message::Client(0),
            sender: String::from("A"),
        },
        state,
    )
    .unwrap();
    state = next;
    assert!(matches!(effect, Effect::StartFraming(0)));

    // Two item lines and the quit line arrive split across reads.
    let item_line = r#"{"Domain":"item","Invocation":"add","Payload":{"HistoryItem":{"Domain":"d","Invocation":"i","Amplitude":"{}","StateType":"t","State":"{}"}}}"#;
    let quit_line = r#"{"Domain":"application","Invocation":"quit","Payload":{"Json":""}}"#;
    let wire = format!("{}\n{}\n{}\n", item_line, item_line, quit_line);
    let (first, second) = wire.split_at(40);

    let mut reader = FrameReader::new();
    let mut lines = reader.feed(first);
    lines.extend(reader.feed(second));
    assert_eq!(lines.len(), 3);

    for line in lines {
        let (next, effect) = run(raw_action(line, "A"), state).unwrap();
        state = next;
        let derived = match effect {
            Effect::Resubmit(derived) => derived,
            _ => panic!("every line here is well-formed"),
        };
        let (next, _) = run(derived, state).unwrap();
        state = next;
    }

    assert_eq!(state.client_amount(), 1);
    assert_eq!(state.total_history_item_amount(), 2);
    assert_eq!(state.status, Status::ShuttingDown);
}
