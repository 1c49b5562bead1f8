//! Streaming client core for OpenAI, Anthropic and Ollama chat APIs: the
//! SSE parser, request and response shapes, usage accounting, endpoints,
//! retry decisions, provider-specific chunks and responses, and the decoder
//! of streaming responses.
mod error;
mod event;
mod http;
mod parser;
mod provider;
mod request;
mod response;
mod stream;
mod usage;

pub use error::{network_error_is_retryable, ClientError};
pub use event::SseEvent;
pub use http::{
    backoff, endpoint, endpoint_path, lemma_attempts_bounded, lemma_retry_schedule, retries,
    retry_delays, role_name, role_str,
    sat_double, trim_end_slashes, trim_trailing_slashes, Provider, RetryConfig, RetryDecision,
    RetryState,
};
pub use parser::{
    apply_line, drain, event_view, feed_spec, first_newline, flush_spec, lemma_blank_line_clears_type,
    lemma_event_resets_type, lemma_events_split,
    lemma_feed_split, process, trim_end_cr, with_input, EventView, SseParser, SseState,
};
pub use provider::{
    anthropic_chat_response, anthropic_event_chunk, anthropic_event_spec, anthropic_max_tokens,
    conversation, conversation_positions, first_system_text, is_done_sentinel, joined,
    ollama_chat_response, ollama_chunk_spec, ollama_stream_chunk, opt_view, parse_anthropic_event,
    event_type_of, json_has_at, single_answer, single_choice_chunk, system_prompt,
};
pub use request::{is_plain, Message, Role};
pub use response::{
    ChatResponse, Choice, Delta, StreamChoice, StreamChunk, ToolCall, ToolCallDelta,
    ToolCallFunction, ToolCallFunctionDelta, Usage,
};
pub use stream::{
    action_view, advance_spec, after_parse_spec, end_spec, input_view, lemma_decoder_split,
    lines_advance, next_line_spec, sse_advance, step_spec, ActionView, AfterParse, DecoderState,
    InputView, Parsed, StreamAction, StreamDecoder, StreamInput,
};
pub use usage::{
    add_usage, can_add, lemma_record_all_sums, record_all, zero_totals, UsageTotals, UsageTracker,
};
