use cc_agent::provider::{chunk_events, feed_chunk, feed_text, parse_sse_event, parse_sse_lines, take_sse_blocks, StopReason, StreamEvent};

#[test]
fn sse_lines_become_records() {
    let text = "event: content_block_delta\ndata: {\"a\":1}\n\nevent: message_delta\ndata: x\n\n";
    let r = parse_sse_lines(text);
    assert_eq!(r, vec![
        ("content_block_delta".to_string(), "{\"a\":1}".to_string()),
        ("message_delta".to_string(), "x".to_string()),
    ]);
}

#[test]
fn sse_records_become_events() {
    match parse_sse_event("content_block_delta", "{\"delta\":{\"type\":\"text_delta\",\"text\":\"Hi\"}}") {
        Some(StreamEvent::ContentDelta { text }) => assert_eq!(text, "Hi"),
        _ => panic!("expected text"),
    }
    match parse_sse_event("message_delta", "{\"delta\":{\"stop_reason\":\"tool_use\"}}") {
        Some(StreamEvent::Stop { reason }) => assert!(reason == StopReason::ToolUse),
        _ => panic!("expected a stop"),
    }
    match parse_sse_event("error", "{}") {
        Some(StreamEvent::Error { message }) => assert_eq!(message, "unknown API error"),
        _ => panic!("expected an error"),
    }
    match parse_sse_event("content_block_start", "{\"content_block\":{\"type\":\"tool_use\",\"id\":\"t\",\"name\":\"bash\"}}") {
        Some(StreamEvent::ToolUseStart { id, name }) => {
            assert_eq!(id, "t");
            assert_eq!(name, "bash");
        }
        _ => panic!("expected a tool start"),
    }
    assert!(parse_sse_event("content_block_delta", "not json").is_none());
    assert!(parse_sse_event("ping", "{}").is_none());
}

#[test]
fn chunks_become_events() {
    let chunk = b"event: content_block_delta\ndata: {\"delta\":{\"type\":\"text_delta\",\"text\":\"A\"}}\n\nevent: ping\ndata: {}\n\n";
    let evs = chunk_events(chunk);
    assert_eq!(evs.len(), 1);
    assert!(matches!(&evs[0], StreamEvent::ContentDelta { text } if text == "A"));
    let bad = [0xffu8, b'\n'];
    assert!(chunk_events(&bad).is_empty());
}

#[test]
fn buffered_blocks() {
    let mut buf = "a\n\nb\n\nc".to_string();
    let blocks = take_sse_blocks(&mut buf);
    assert_eq!(blocks, vec!["a", "b"]);
    assert_eq!(buf, "c");
}

fn describe(e: &StreamEvent) -> String {
    match e {
        StreamEvent::ContentDelta { text } => format!("text {text}"),
        StreamEvent::ToolUseStart { id, name } => format!("tool {id} {name}"),
        StreamEvent::ToolUseDelta { json_chunk } => format!("json {json_chunk}"),
        StreamEvent::Stop { reason } => format!("stop {}", matches!(reason, StopReason::EndTurn)),
        StreamEvent::Error { message } => format!("error {message}"),
    }
}

#[test]
fn any_split_of_the_stream_gives_the_same_events() {
    let whole = "event: content_block_delta\ndata: {\"delta\":{\"type\":\"text_delta\",\"text\":\"Hi\"}}\n\nevent: message_delta\ndata: {\"delta\":{\"stop_reason\":\"end_turn\"}}\n\nevent: ping";
    let mut buf = String::new();
    let expected: Vec<String> = feed_text(&mut buf, whole).iter().map(describe).collect();
    assert_eq!(expected, vec!["text Hi".to_string(), "stop true".to_string()]);
    assert_eq!(buf, "event: ping");
    for k in 0..=whole.len() {
        let mut buf = String::new();
        let mut got: Vec<String> = feed_text(&mut buf, &whole[..k]).iter().map(describe).collect();
        got.extend(feed_text(&mut buf, &whole[k..]).iter().map(describe));
        assert_eq!(got, expected, "split at {k}");
        assert_eq!(buf, "event: ping");
    }
}

#[test]
fn chunks_are_buffered_until_a_blank_line() {
    let mut buf = String::new();
    assert!(feed_chunk(&mut buf, b"event: content_block_delta\ndata: {\"delta\":{\"type\":\"text_delta\",\"text\":\"A\"}}\n").is_empty());
    assert_eq!(buf, "event: content_block_delta\ndata: {\"delta\":{\"type\":\"text_delta\",\"text\":\"A\"}}\n");
    let evs = feed_chunk(&mut buf, b"\n");
    assert_eq!(evs.iter().map(describe).collect::<Vec<_>>(), vec!["text A".to_string()]);
    assert_eq!(buf, "");
}

#[test]
fn byte_chunks_split_between_characters_give_the_same_events() {
    let whole = "event: content_block_delta\ndata: {\"delta\":{\"type\":\"text_delta\",\"text\":\"caf\u{e9}\"}}\n\n".as_bytes();
    let mut buf = String::new();
    let expected: Vec<String> = feed_chunk(&mut buf, whole).iter().map(describe).collect();
    assert_eq!(expected, vec!["text caf\u{e9}".to_string()]);
    for k in 0..=whole.len() {
        let (a, b) = whole.split_at(k);
        let mut buf = String::new();
        let mut got: Vec<String> = feed_chunk(&mut buf, a).iter().map(describe).collect();
        got.extend(feed_chunk(&mut buf, b).iter().map(describe));
        if std::str::from_utf8(a).is_ok() {
            assert_eq!(got, expected, "split at {k}");
        } else {
            assert_ne!(got, expected, "split at {k}");
        }
    }
}
