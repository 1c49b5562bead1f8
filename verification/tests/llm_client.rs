use tpt_ai_agents::llm_client::{
    anthropic_chat_response, anthropic_event_chunk, anthropic_max_tokens, conversation, endpoint,
    is_done_sentinel, ollama_chat_response, ollama_stream_chunk, parse_anthropic_event, role_str,
    system_prompt, trim_trailing_slashes, AfterParse, ClientError, Message, Parsed, Provider,
    RetryConfig, RetryDecision, RetryState, Role, StreamAction, StreamDecoder, StreamInput,
    Usage, UsageTotals, UsageTracker,
};

#[test]
fn test_endpoint_per_provider() {
    assert_eq!(
        endpoint("https://api.openai.com/v1", Provider::OpenAi),
        "https://api.openai.com/v1/chat/completions"
    );
    assert_eq!(
        endpoint("https://api.anthropic.com/v1/", Provider::Anthropic),
        "https://api.anthropic.com/v1/messages"
    );
    assert_eq!(
        endpoint("http://localhost:11434", Provider::Ollama),
        "http://localhost:11434/api/chat"
    );
}

#[test]
fn endpoint_drops_every_trailing_slash() {
    assert_eq!(endpoint("http://h///", Provider::Ollama), "http://h/api/chat");
    assert_eq!(trim_trailing_slashes("///"), "");
    assert_eq!(trim_trailing_slashes("a/b"), "a/b");
}

#[test]
fn role_names() {
    assert_eq!(role_str(Role::System), "system");
    assert_eq!(role_str(Role::User), "user");
    assert_eq!(role_str(Role::Assistant), "assistant");
    assert_eq!(role_str(Role::Tool), "tool");
}

#[test]
fn test_tracker_accumulates() {
    let mut tracker = UsageTracker::new();
    tracker.record(&Usage {
        prompt_tokens: 10,
        completion_tokens: 20,
        total_tokens: 30,
    });
    tracker.record(&Usage {
        prompt_tokens: 5,
        completion_tokens: 10,
        total_tokens: 15,
    });
    let totals = tracker.snapshot();
    assert_eq!(totals.prompt_tokens, 15);
    assert_eq!(totals.completion_tokens, 30);
    assert_eq!(totals.total_tokens, 45);
    assert_eq!(totals.request_count, 2);
}

#[test]
fn test_tracker_reset() {
    let mut tracker = UsageTracker::new();
    tracker.record(&Usage {
        prompt_tokens: 100,
        completion_tokens: 200,
        total_tokens: 300,
    });
    tracker.reset();
    let totals = tracker.snapshot();
    assert_eq!(totals.total_tokens, 0);
    assert_eq!(totals.request_count, 0);
}

#[test]
fn test_tracker_default_is_empty() {
    let tracker = UsageTracker::new();
    let totals = tracker.snapshot();
    assert_eq!(totals, UsageTotals::default());
}

#[test]
fn test_tracker_debug() {
    let tracker = UsageTracker::new();
    let debug_str = format!("{:?}", tracker);
    assert!(debug_str.contains("UsageTracker"));
}

#[test]
fn test_is_retryable() {
    assert!(ClientError::RateLimited.is_retryable());
    assert!(ClientError::Provider {
        code: 503,
        message: String::new()
    }
    .is_retryable());
    assert!(!ClientError::Provider {
        code: 400,
        message: String::new()
    }
    .is_retryable());
    assert!(!ClientError::Unauthorized.is_retryable());
    assert!(!ClientError::InvalidRequest(String::new()).is_retryable());
}

#[test]
fn from_status_maps_auth_and_rate_limits() {
    assert!(matches!(ClientError::from_status(401, String::new()), ClientError::Unauthorized));
    assert!(matches!(ClientError::from_status(429, String::new()), ClientError::RateLimited));
    match ClientError::from_status(500, "boom".to_string()) {
        ClientError::Provider { code, message } => {
            assert_eq!(code, 500);
            assert_eq!(message, "boom");
        }
        _ => panic!("expected a provider error"),
    }
}

#[test]
fn client_error_messages() {
    assert_eq!(ClientError::RateLimited.message().unwrap(), "rate limited");
    assert_eq!(ClientError::Unauthorized.message().unwrap(), "unauthorized");
    assert_eq!(
        ClientError::Provider { code: 502, message: "bad gateway".to_string() }.message().unwrap(),
        "provider error 502: bad gateway"
    );
    assert_eq!(
        ClientError::SseFormat("x".to_string()).message().unwrap(),
        "sse format error: x"
    );
    assert_eq!(
        ClientError::InvalidRequest("y".to_string()).message().unwrap(),
        "invalid request: y"
    );
}

#[test]
fn retry_defaults() {
    let c = RetryConfig::default();
    assert_eq!(c.max_attempts, 3);
    assert_eq!(c.base_delay_ms, 200);
}

/// Runs `attempt` under `config` as the client does, counting attempts.
fn run_with_retry(config: &RetryConfig, mut attempt: impl FnMut(u32) -> Result<&'static str, ClientError>) -> (Result<&'static str, ClientError>, u32) {
    let mut state = RetryState::new(config);
    let mut attempts = 0;
    loop {
        attempts += 1;
        match attempt(attempts) {
            Ok(v) => return (Ok(v), attempts),
            Err(e) => match state.on_failure(config, e.is_retryable()) {
                RetryDecision::RetryAfter(_) => {}
                RetryDecision::GiveUp => return (Err(e), attempts),
            },
        }
    }
}

#[test]
fn test_with_retry_succeeds_after_transient_failures() {
    let config = RetryConfig { max_attempts: 3, base_delay_ms: 1 };
    let (result, attempts) =
        run_with_retry(&config, |n| if n < 3 { Err(ClientError::RateLimited) } else { Ok("ok") });
    assert_eq!(result.unwrap(), "ok");
    assert_eq!(attempts, 3);
}

#[test]
fn test_with_retry_gives_up_after_max_attempts() {
    let config = RetryConfig { max_attempts: 2, base_delay_ms: 1 };
    let (result, attempts) = run_with_retry(&config, |_| Err(ClientError::RateLimited));
    assert!(result.is_err());
    assert_eq!(attempts, 2);
}

#[test]
fn test_with_retry_does_not_retry_non_retryable_errors() {
    let config = RetryConfig { max_attempts: 5, base_delay_ms: 1 };
    let (result, attempts) = run_with_retry(&config, |_| Err(ClientError::Unauthorized));
    assert!(result.is_err());
    assert_eq!(attempts, 1);
}

#[test]
fn retry_delays_double() {
    let config = RetryConfig { max_attempts: 4, base_delay_ms: 100 };
    let mut state = RetryState::new(&config);
    assert_eq!(state.on_failure(&config, true), RetryDecision::RetryAfter(100));
    assert_eq!(state.on_failure(&config, true), RetryDecision::RetryAfter(200));
    assert_eq!(state.on_failure(&config, true), RetryDecision::RetryAfter(400));
    assert_eq!(state.on_failure(&config, true), RetryDecision::GiveUp);
}

#[test]
fn retry_delay_saturates() {
    let config = RetryConfig { max_attempts: 10, base_delay_ms: u64::MAX - 1 };
    let mut state = RetryState::new(&config);
    assert_eq!(state.on_failure(&config, true), RetryDecision::RetryAfter(u64::MAX - 1));
    assert_eq!(state.on_failure(&config, true), RetryDecision::RetryAfter(u64::MAX));
}

#[test]
fn test_parse_stream_event_openai_done_sentinel() {
    assert!(is_done_sentinel("[DONE]"));
    assert!(!is_done_sentinel("[DONE] "));
    assert!(parse_anthropic_event("[DONE]").unwrap().is_none());
}

#[test]
fn test_parse_stream_event_anthropic_content_delta() {
    let data = r#"{"type":"content_block_delta","delta":{"text":"chunk"}}"#;
    let chunk = parse_anthropic_event(data).unwrap().unwrap();
    assert_eq!(chunk.id, "anthropic");
    assert_eq!(chunk.choices[0].delta.content.as_deref(), Some("chunk"));
}

#[test]
fn anthropic_message_delta_carries_the_stop_reason() {
    let data = r#"{"type":"message_delta","delta":{"stop_reason":"end_turn"}}"#;
    let chunk = parse_anthropic_event(data).unwrap().unwrap();
    assert!(chunk.choices[0].delta.content.is_none());
    assert_eq!(chunk.choices[0].finish_reason.as_deref(), Some("end_turn"));
}

#[test]
fn anthropic_other_events_and_bad_json() {
    assert!(parse_anthropic_event(r#"{"type":"ping"}"#).unwrap().is_none());
    assert!(matches!(parse_anthropic_event("not json"), Err(ClientError::Json(_))));
    let c = anthropic_event_chunk("content_block_delta", None, None).unwrap();
    assert_eq!(c.choices[0].delta.content.as_deref(), Some(""));
    assert!(anthropic_event_chunk("message_start", Some("x".to_string()), None).is_none());
}

#[test]
fn test_parse_ollama_stream_line_done() {
    let chunk = ollama_stream_chunk("done text".to_string(), true, Some("stop".to_string()));
    assert_eq!(chunk.choices[0].delta.content.as_deref(), Some("done text"));
    assert_eq!(chunk.choices[0].finish_reason.as_deref(), Some("stop"));
    assert!(chunk.has_finish_reason());
}

#[test]
fn ollama_line_defaults() {
    let chunk = ollama_stream_chunk(String::new(), false, None);
    assert_eq!(chunk.id, "ollama");
    assert_eq!(chunk.choices[0].delta.role.as_deref(), Some("assistant"));
    assert!(chunk.choices[0].delta.content.is_none());
    assert!(chunk.choices[0].finish_reason.is_none());
    assert!(!chunk.has_finish_reason());
    let done = ollama_stream_chunk("x".to_string(), true, None);
    assert_eq!(done.choices[0].finish_reason.as_deref(), Some("stop"));
}

#[test]
fn test_parse_response_anthropic() {
    let blocks = vec!["hi ".to_string(), "there".to_string()];
    let resp = anthropic_chat_response("msg_1".to_string(), &blocks, Some("end_turn".to_string()), 10, 5);
    assert_eq!(resp.id, "msg_1");
    assert_eq!(resp.choices[0].message.content.as_deref(), Some("hi there"));
    assert_eq!(resp.choices[0].finish_reason.as_deref(), Some("end_turn"));
    assert_eq!(resp.usage.unwrap().total_tokens, 15);
}

#[test]
fn test_parse_response_ollama() {
    let resp = ollama_chat_response("hi".to_string(), Some("stop".to_string()), 4, 6);
    assert_eq!(resp.id, "ollama");
    assert_eq!(resp.choices[0].message.content.as_deref(), Some("hi"));
    assert_eq!(resp.usage.unwrap().total_tokens, 10);
}

#[test]
fn test_build_body_anthropic_splits_system_message() {
    let messages = vec![Message::system("be nice"), Message::user("hello")];
    assert_eq!(system_prompt(&messages).as_deref(), Some("be nice"));
    assert_eq!(conversation(&messages), vec![1]);
    assert_eq!(anthropic_max_tokens(Some(128)), 128);
    assert_eq!(anthropic_max_tokens(None), 1024);
}

#[test]
fn only_the_first_system_message_is_the_prompt() {
    let messages = vec![
        Message::user("a"),
        Message::system("first"),
        Message::assistant("b"),
        Message::system("second"),
    ];
    assert_eq!(system_prompt(&messages).as_deref(), Some("first"));
    assert_eq!(conversation(&messages), vec![0, 2]);
    assert!(system_prompt(&[Message::user("a")].to_vec()).is_none());
}

#[test]
fn message_constructors() {
    let m = Message::tool("call_1", "42");
    assert_eq!(m.role, Role::Tool);
    assert_eq!(m.text(), "42");
    assert_eq!(m.tool_call_id.as_deref(), Some("call_1"));
    assert_eq!(Message::assistant("ok").text(), "ok");
}

fn drain(decoder: &mut StreamDecoder, input: StreamInput) -> StreamAction {
    decoder.step(input)
}

#[test]
fn sse_stream_yields_buffered_events_before_reading() {
    let mut d = StreamDecoder::new(Provider::OpenAi);
    let a = drain(&mut d, StreamInput::Bytes("data: one\n\ndata: two\n\n".to_string()));
    assert!(matches!(a, StreamAction::Parse(ref t) if t == "one"));
    assert_eq!(d.after_parse(Parsed::Chunk { finished: false }), AfterParse::Yield);
    let a = drain(&mut d, StreamInput::Resume);
    assert!(matches!(a, StreamAction::Parse(ref t) if t == "two"));
    assert_eq!(d.after_parse(Parsed::Chunk { finished: true }), AfterParse::Yield);
    assert!(matches!(drain(&mut d, StreamInput::Resume), StreamAction::Read));
    assert!(!d.is_done());
}

#[test]
fn sse_stream_flushes_an_unterminated_event_at_the_end() {
    let mut d = StreamDecoder::new(Provider::Anthropic);
    assert!(matches!(drain(&mut d, StreamInput::Bytes("data: [DONE]\n\n".to_string())), StreamAction::Parse(ref t) if t == "[DONE]"));
    assert_eq!(d.after_parse(Parsed::Nothing), AfterParse::Continue);
    assert!(matches!(drain(&mut d, StreamInput::Bytes("data: tail\n".to_string())), StreamAction::Read));
    assert!(matches!(drain(&mut d, StreamInput::Ended), StreamAction::ParseLast(ref t) if t == "tail"));
    assert!(d.is_done());
    assert_eq!(d.after_parse(Parsed::Failed), AfterParse::Stop);
    assert!(matches!(drain(&mut d, StreamInput::Resume), StreamAction::Stop));
}

#[test]
fn ollama_stream_splits_lines_and_ends_on_finish() {
    let mut d = StreamDecoder::new(Provider::Ollama);
    assert!(matches!(drain(&mut d, StreamInput::Bytes("\n  \n{\"a\":1}\n{\"b\"".to_string())), StreamAction::Parse(ref t) if t == "{\"a\":1}"));
    assert_eq!(d.after_parse(Parsed::Chunk { finished: false }), AfterParse::Yield);
    assert!(matches!(drain(&mut d, StreamInput::Resume), StreamAction::Read));
    assert!(matches!(drain(&mut d, StreamInput::Bytes(":2}\r\n".to_string())), StreamAction::Parse(ref t) if t == "{\"b\":2}"));
    assert_eq!(d.after_parse(Parsed::Chunk { finished: true }), AfterParse::Yield);
    assert!(d.is_done());
    assert!(matches!(drain(&mut d, StreamInput::Bytes("{}\n".to_string())), StreamAction::Stop));
}

#[test]
fn read_errors_and_parse_errors_end_the_stream() {
    let mut d = StreamDecoder::new(Provider::OpenAi);
    assert!(matches!(drain(&mut d, StreamInput::ReadFailed), StreamAction::Fail));
    assert!(matches!(drain(&mut d, StreamInput::Resume), StreamAction::Stop));
    let mut d = StreamDecoder::new(Provider::Ollama);
    assert!(matches!(drain(&mut d, StreamInput::Bytes("oops\n".to_string())), StreamAction::Parse(_)));
    assert_eq!(d.after_parse(Parsed::Failed), AfterParse::YieldError);
    assert!(d.is_done());
    let mut d = StreamDecoder::new(Provider::Ollama);
    assert!(matches!(drain(&mut d, StreamInput::Bytes("partial".to_string())), StreamAction::Read));
    assert!(matches!(drain(&mut d, StreamInput::Ended), StreamAction::Stop));
}

#[test]
fn a_body_split_anywhere_gives_the_same_items() {
    let mut whole = StreamDecoder::new(Provider::OpenAi);
    assert!(matches!(whole.step(StreamInput::Bytes("data: hello\n\n".to_string())), StreamAction::Parse(ref t) if t == "hello"));
    let mut split = StreamDecoder::new(Provider::OpenAi);
    assert!(matches!(split.step(StreamInput::Bytes("data: he".to_string())), StreamAction::Read));
    assert!(matches!(split.step(StreamInput::Bytes("llo\n\n".to_string())), StreamAction::Parse(ref t) if t == "hello"));
    let mut lines = StreamDecoder::new(Provider::Ollama);
    assert!(matches!(lines.step(StreamInput::Bytes("{\"a\"".to_string())), StreamAction::Read));
    assert!(matches!(lines.step(StreamInput::Bytes(":1}\n".to_string())), StreamAction::Parse(ref t) if t == "{\"a\":1}"));
}
