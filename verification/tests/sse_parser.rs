use tpt_ai_agents::llm_client::SseParser;

#[test]
fn test_parse_single_event() {
    let mut parser = SseParser::new();
    let event = parser.feed("data: {\"text\": \"hello\"}\n\n");
    assert!(event.is_some());
    let event = event.unwrap();
    assert_eq!(event.data, "{\"text\": \"hello\"}");
}

#[test]
fn test_parse_chunked_data() {
    let mut parser = SseParser::new();
    assert!(parser.feed("data: {").is_none());
    assert!(parser.feed("\"text\": \"hello\"").is_none());
    let event = parser.feed("}\n\n");
    assert!(event.is_some());
}

#[test]
fn test_event_type() {
    let mut parser = SseParser::new();
    let event = parser.feed("event: message\ndata: hello\n\n").unwrap();
    assert_eq!(event.event_type.as_deref(), Some("message"));
}

#[test]
fn multiple_data_lines_join_with_newline() {
    let mut parser = SseParser::new();
    let event = parser.feed("data: a\r\ndata:  b \r\n\r\n").unwrap();
    assert_eq!(event.data_str(), "a\nb");
    assert_eq!(event.event_type, None);
}

#[test]
fn later_events_stay_buffered() {
    let mut parser = SseParser::new();
    let first = parser.feed("data: one\n\ndata: two\n\n").unwrap();
    assert_eq!(first.data, "one");
    let second = parser.feed("").unwrap();
    assert_eq!(second.data, "two");
    assert!(parser.feed("").is_none());
}

#[test]
fn blank_line_without_data_emits_nothing_and_clears_type() {
    let mut parser = SseParser::new();
    assert!(parser.feed("event: ping\n\n").is_none());
    let event = parser.feed("data: x\n\n").unwrap();
    assert_eq!(event.event_type, None);
}

#[test]
fn flush_emits_pending_data() {
    let mut parser = SseParser::new();
    assert!(parser.flush().is_none());
    assert!(parser.feed("event: e\ndata: partial").is_none());
    assert!(parser.flush().is_none());
    assert!(parser.feed("\n").is_none());
    let event = parser.flush().unwrap();
    assert_eq!(event.data, "partial");
    assert_eq!(event.event_type.as_deref(), Some("e"));
    assert!(parser.flush().is_none());
}

#[test]
fn comment_and_unknown_lines_are_ignored() {
    let mut parser = SseParser::new();
    let event = parser.feed(": comment\nid: 7\ndata: z\n\n").unwrap();
    assert_eq!(event.data, "z");
}
