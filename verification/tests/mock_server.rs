use tpt_ai_agents::mock_server::{RecordedResponse, Router};

#[test]
fn sse_stream_makes_one_chunk_per_word() {
    let r = RecordedResponse::sse_stream("  hello\tbig  world ");
    assert_eq!(r.chunks.len(), 3);
    assert_eq!(r.chunks[0].event_type.as_deref(), Some("message"));
    assert_eq!(r.chunks[0].data, "{\"text\":\"hello\"}");
    assert_eq!(r.chunks[1].data, "{\"text\":\"big\"}");
    assert_eq!(r.chunks[2].data, "{\"text\":\"world\"}");
}

#[test]
fn sse_stream_of_blank_text_is_empty() {
    assert!(RecordedResponse::sse_stream(" \n ").chunks.is_empty());
}

#[test]
fn json_response_is_a_single_untyped_chunk() {
    let r = RecordedResponse::json_response("{\"ok\":true}");
    assert_eq!(r.chunks.len(), 1);
    assert!(r.chunks[0].event_type.is_none());
    assert_eq!(r.chunks[0].data, "{\"ok\":true}");
}

#[test]
fn router_serves_each_path_first_in_first_out() {
    let mut router = Router::new();
    router.add_route("/a", RecordedResponse::json_response("1"));
    router.add_route("/b", RecordedResponse::json_response("x"));
    router.add_route("/a", RecordedResponse::json_response("2"));
    assert_eq!(router.find("/a").unwrap().chunks[0].data, "1");
    assert_eq!(router.take("/a").unwrap().chunks[0].data, "1");
    assert_eq!(router.take("/a").unwrap().chunks[0].data, "2");
    assert!(router.take("/a").is_none());
    assert!(router.find("/a").is_none());
    assert_eq!(router.take("/b").unwrap().chunks[0].data, "x");
}

use tpt_ai_agents::mock_server::{
    content_length, http_response, request_path, sse_response, status_text, validate_request,
    MockServerError, Reply, SseChunk,
};

#[test]
fn test_valid_request() {
    let body = r#"{"model":"gpt-4","messages":[{"role":"user","content":"hi"}]}"#;
    assert!(validate_request(body).is_ok());
}

#[test]
fn test_missing_model() {
    let body = r#"{"messages":[{"role":"user","content":"hi"}]}"#;
    assert!(validate_request(body).is_err());
}

#[test]
fn validation_errors_name_the_missing_field() {
    match validate_request(r#"{"model":"m"}"#) {
        Err(MockServerError::Validation(m)) => assert_eq!(m, "missing required field: messages"),
        _ => panic!("expected a validation error"),
    }
    match validate_request(r#"{"messages":[]}"#) {
        Err(e) => assert_eq!(e.message().unwrap(), "validation error: missing required field: model"),
        _ => panic!("expected a validation error"),
    }
    assert!(matches!(validate_request("not json"), Err(MockServerError::Json(_))));
    assert!(validate_request("[1, 2]").is_err());
}

#[test]
fn request_lines_and_headers() {
    assert_eq!(request_path("POST /v1/chat/completions HTTP/1.1\r\n"), "/v1/chat/completions");
    assert_eq!(request_path("GET"), "/");
    assert_eq!(content_length("Content-Length: 42\r\n"), Some(42));
    assert_eq!(content_length("content-length:+7"), Some(7));
    assert_eq!(content_length("CONTENT-LENGTH: abc\r\n"), Some(0));
    assert_eq!(content_length("content-length: 99999999999999999999999\r\n"), Some(0));
    assert_eq!(content_length("host: x\r\n"), None);
}

#[test]
fn response_texts() {
    assert_eq!(status_text(200), "OK");
    assert_eq!(status_text(400), "Bad Request");
    assert_eq!(status_text(404), "Not Found");
    assert_eq!(status_text(500), "Error");
    assert_eq!(
        http_response(200, "application/json", "héllo"),
        "HTTP/1.1 200 OK\r\ncontent-type: application/json\r\ncontent-length: 6\r\nconnection: close\r\n\r\nhéllo"
    );
    let chunks = vec![
        SseChunk { event_type: Some("message".to_string()), data: "a".to_string() },
        SseChunk { event_type: None, data: "b".to_string() },
    ];
    assert_eq!(
        sse_response(&chunks),
        "HTTP/1.1 200 OK\r\ncontent-type: text/event-stream\r\nconnection: close\r\n\r\nevent: message\ndata: a\n\ndata: b\n\ndata: [DONE]\n\n"
    );
}

#[test]
fn router_replies_in_order_then_404() {
    let mut router = Router::new();
    router.add_route("/v1/chat/completions", RecordedResponse::json_response("{\"n\":1}"));
    router.add_route("/v1/chat/completions", RecordedResponse::sse_stream("hi"));
    match router.reply("/v1/chat/completions", Some("validation error: x")) {
        Reply::Json { status, body } => {
            assert_eq!(status, 400);
            assert_eq!(body, "{\"error\":\"validation error: x\"}");
        }
        _ => panic!("expected a 400"),
    }
    match router.reply("/v1/chat/completions", None) {
        Reply::Json { status, body } => {
            assert_eq!(status, 200);
            assert_eq!(body, "{\"n\":1}");
        }
        _ => panic!("expected the JSON answer"),
    }
    assert!(matches!(router.reply("/v1/chat/completions", None), Reply::Sse(ref c) if c.len() == 1));
    match router.reply("/v1/chat/completions", None) {
        Reply::Json { status, body } => {
            assert_eq!(status, 404);
            assert_eq!(body, "{\"error\":\"no route\"}");
        }
        _ => panic!("expected a 404"),
    }
}

#[test]
fn startup_error_message() {
    let e = MockServerError::Startup("port taken".to_string());
    assert_eq!(e.message().unwrap(), "startup error: port taken");
    assert!(MockServerError::Json(serde_json::from_str::<serde_json::Value>("{").unwrap_err())
        .message()
        .is_none());
}

#[test]
fn answers_validate_the_body_before_routing() {
    let mut router = Router::new();
    router.add_route("/v1/chat/completions", RecordedResponse::json_response("{\"n\":1}"));
    match router.answer("/v1/chat/completions", r#"{"messages":[]}"#) {
        Reply::Json { status, body } => {
            assert_eq!(status, 400);
            assert_eq!(body, "{\"error\":\"validation error: missing required field: model\"}");
        }
        _ => panic!("expected a 400"),
    }
    assert!(matches!(router.answer("/v1/chat/completions", "nope"), Reply::Json { status: 400, .. }));
    match router.answer("/v1/chat/completions", r#"{"model":"m","messages":[]}"#) {
        Reply::Json { status, body } => {
            assert_eq!(status, 200);
            assert_eq!(body, "{\"n\":1}");
        }
        _ => panic!("expected the queued answer"),
    }
    assert!(matches!(router.answer("/v1/chat/completions", r#"{"model":"m","messages":[]}"#), Reply::Json { status: 404, .. }));
}

#[test]
fn whitespace_class_matches_std_on_every_char() {
    for u in 0u32..=0x10FFFF {
        if let Some(c) = char::from_u32(u) {
            assert_eq!(tpt_ai_agents::text::is_whitespace(c), c.is_whitespace(), "U+{:04X}", u);
        }
    }
}

#[test]
fn non_json_body_is_answered_with_json_error_prefix() {
    let mut router = Router::new();
    match router.answer("/v1/chat/completions", "{not json") {
        tpt_ai_agents::mock_server::Reply::Json { status, body } => {
            assert_eq!(status, 400);
            assert!(body.starts_with("{\"error\":\"json error: "), "{}", body);
            assert!(body.ends_with("\"}"), "{}", body);
        }
        _ => panic!("expected a JSON reply"),
    }
}
