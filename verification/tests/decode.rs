use vision_quest::actions::Message;
use vision_quest::message_parser::parse;

fn parse_line(line: &str) -> Result<vision_quest::actions::Action, vision_quest::message_parser::DecodeError> {
    parse(String::from(line), String::from("127.0.0.1:5000"))
}

#[test]
fn history_item_payload_decodes_verbatim() {
    let line = r#"{"Domain":"ping","Invocation":"pong","Payload":{"HistoryItem":{"Domain":"ping","Invocation":"pong","Amplitude":"{}","StateType":"s","State":"{\"a\":1}"}}}"#;
    let action = parse_line(line).unwrap();
    assert_eq!(action.domain, "ping");
    assert_eq!(action.invocation, "pong");
    assert_eq!(action.sender, "127.0.0.1:5000");
    match action.message {
        Message::HistoryItem(item) => {
            assert_eq!(item.action.domain, "ping");
            assert_eq!(item.action.invocation, "pong");
            assert_eq!(item.action.amplitude, "{}");
            assert_eq!(item.state.id, "s");
            assert_eq!(item.state.content, "{\"a\":1}");
            assert!(!item.selected);
            assert!(!item.action.selected);
            assert!(!item.state.selected);
        },
        _ => panic!("expected a history-item message"),
    }
}

#[test]
fn json_payload_passes_through_as_raw() {
    let line = r#"{"Domain":"client","Invocation":"receive","Payload":{"Json":"hello"}}"#;
    let action = parse_line(line).unwrap();
    assert_eq!(action.domain, "client");
    assert_eq!(action.invocation, "receive");
    match action.message {
        Message::Raw(content) => assert_eq!(content, "hello"),
        _ => panic!("expected a raw message"),
    }
}

#[test]
fn members_accepted_in_any_order() {
    let line = r#"{"Payload":{"Json":"x"},"Invocation":"i","Domain":"d"}"#;
    let action = parse_line(line).unwrap();
    assert_eq!(action.domain, "d");
    assert_eq!(action.invocation, "i");
    let line = r#"{"Domain":"d","Invocation":"i","Payload":{"HistoryItem":{"State":"st","Amplitude":"a","Invocation":"i2","StateType":"t","Domain":"d2"}}}"#;
    let action = parse_line(line).unwrap();
    match action.message {
        Message::HistoryItem(item) => {
            assert_eq!(item.action.domain, "d2");
            assert_eq!(item.action.invocation, "i2");
            assert_eq!(item.action.amplitude, "a");
            assert_eq!(item.state.id, "t");
            assert_eq!(item.state.content, "st");
        },
        _ => panic!("expected a history-item message"),
    }
}

#[test]
fn whitespace_between_tokens_is_ignored() {
    let line = "  { \"Domain\" : \"d\" ,\t\"Invocation\" : \"i\" , \"Payload\" : { \"Json\" : \"x\" } }  ";
    let action = parse_line(line).unwrap();
    assert_eq!(action.domain, "d");
    match action.message {
        Message::Raw(content) => assert_eq!(content, "x"),
        _ => panic!("expected a raw message"),
    }
}

#[test]
fn string_escapes_decode() {
    let line = r#"{"Domain":"a\nb","Invocation":"q\"\\\/","Payload":{"Json":"tab\there A é €"}}"#;
    let action = parse_line(line).unwrap();
    assert_eq!(action.domain, "a\nb");
    assert_eq!(action.invocation, "q\"\\/");
    match action.message {
        Message::Raw(content) => assert_eq!(content, "tab\there A \u{e9} \u{20ac}"),
        _ => panic!("expected a raw message"),
    }
}

#[test]
fn unicode_escapes_decode() {
    let line = r#"{"Domain":"\u0041\u00e9\u20aC","Invocation":"i","Payload":{"Json":"x"}}"#;
    let action = parse_line(line).unwrap();
    assert_eq!(action.domain, "A\u{e9}\u{20ac}");
}

#[test]
fn error_keeps_line_and_sender() {
    let err = parse(String::from("not json"), String::from("S")).unwrap_err();
    assert_eq!(err.line, "not json");
    assert_eq!(err.sender, "S");
}

#[test]
fn missing_member_is_rejected() {
    assert!(parse_line(r#"{"Domain":"d","Invocation":"i"}"#).is_err());
    assert!(parse_line(r#"{"Domain":"d","Payload":{"Json":"x"}}"#).is_err());
    assert!(parse_line(r#"{}"#).is_err());
}

#[test]
fn duplicate_member_is_rejected() {
    assert!(parse_line(
        r#"{"Domain":"d","Domain":"e","Invocation":"i","Payload":{"Json":"x"}}"#
    )
    .is_err());
}

#[test]
fn unknown_member_is_rejected() {
    assert!(parse_line(
        r#"{"Domain":"d","Invocation":"i","Extra":"y","Payload":{"Json":"x"}}"#
    )
    .is_err());
}

#[test]
fn unknown_payload_tag_is_rejected() {
    assert!(parse_line(r#"{"Domain":"d","Invocation":"i","Payload":{"Other":"x"}}"#).is_err());
}

#[test]
fn incomplete_history_item_is_rejected() {
    assert!(parse_line(
        r#"{"Domain":"d","Invocation":"i","Payload":{"HistoryItem":{"Domain":"d2"}}}"#
    )
    .is_err());
}

#[test]
fn trailing_text_is_rejected() {
    assert!(parse_line(r#"{"Domain":"d","Invocation":"i","Payload":{"Json":"x"}} more"#).is_err());
}

#[test]
fn unterminated_string_is_rejected() {
    assert!(parse_line(r#"{"Domain":"d","Invocation":"i","Payload":{"Json":"x}}"#).is_err());
}

#[test]
fn bad_escapes_are_rejected() {
    assert!(parse_line(r#"{"Domain":"d\x","Invocation":"i","Payload":{"Json":"x"}}"#).is_err());
    assert!(parse_line(r#"{"Domain":"d\u12","Invocation":"i","Payload":{"Json":"x"}}"#).is_err());
    assert!(parse_line(r#"{"Domain":"d\uD800","Invocation":"i","Payload":{"Json":"x"}}"#).is_err());
}

#[test]
fn raw_control_character_is_rejected() {
    let line = "{\"Domain\":\"d\u{0001}\",\"Invocation\":\"i\",\"Payload\":{\"Json\":\"x\"}}";
    assert!(parse_line(line).is_err());
}

#[test]
fn non_object_payload_is_rejected() {
    assert!(parse_line(r#"{"Domain":"d","Invocation":"i","Payload":"x"}"#).is_err());
    assert!(parse_line(r#"{"Domain":"d","Invocation":"i","Payload":7}"#).is_err());
}
