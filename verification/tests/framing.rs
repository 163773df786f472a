use vision_quest::framing::FrameReader;

fn buffer_string(r: &FrameReader) -> String {
    r.buffer.iter().collect()
}

#[test]
fn k_lines_then_partial() {
    let mut reader = FrameReader::new();
    let msgs = reader.feed("alpha\nbeta\ngam");
    assert_eq!(msgs, vec![String::from("alpha"), String::from("beta")]);
    assert_eq!(buffer_string(&reader), "gam");
}

#[test]
fn partial_prefixes_next_read() {
    let mut reader = FrameReader::new();
    let msgs = reader.feed("hel");
    assert!(msgs.is_empty());
    let msgs = reader.feed("lo\nworld");
    assert_eq!(msgs, vec![String::from("hello")]);
    assert_eq!(buffer_string(&reader), "world");
    let msgs = reader.feed("\n");
    assert_eq!(msgs, vec![String::from("world")]);
    assert_eq!(buffer_string(&reader), "");
}

#[test]
fn lone_newline_is_one_empty_message() {
    let mut reader = FrameReader::new();
    let msgs = reader.feed("\n");
    assert_eq!(msgs, vec![String::from("")]);
    assert_eq!(buffer_string(&reader), "");
}

#[test]
fn empty_chunk_emits_nothing() {
    let mut reader = FrameReader::new();
    let msgs = reader.feed("");
    assert!(msgs.is_empty());
    assert_eq!(buffer_string(&reader), "");
}

#[test]
fn message_split_across_three_reads() {
    let mut reader = FrameReader::new();
    assert!(reader.feed("{\"Dom").is_empty());
    assert!(reader.feed("ain\":\"x\"").is_empty());
    let msgs = reader.feed("}\n");
    assert_eq!(msgs, vec![String::from("{\"Domain\":\"x\"}")]);
}

#[test]
fn several_newlines_in_one_chunk() {
    let mut reader = FrameReader::new();
    let msgs = reader.feed("a\n\nb\n");
    assert_eq!(
        msgs,
        vec![String::from("a"), String::from(""), String::from("b")]
    );
    assert_eq!(buffer_string(&reader), "");
}
