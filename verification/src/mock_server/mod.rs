//! Mock LLM server logic: recorded responses, FIFO routing per path,
//! request validation, and the HTTP request and response texts the server
//! reads and writes.
mod http;
mod response;
mod router;
mod validation;

pub use http::{
    all_digits, ascii_lower, content_length, content_length_spec, digits_value, error_body,
    http_response, http_response_spec, is_digit, no_route_body, parse_usize, request_path,
    request_target, sign_stripped, sse_done_spec, sse_event_spec, sse_events_spec,
    sse_header_spec, sse_response, status_reason, status_text, reply_spec, validation_message, Reply,
};
pub use response::{
    chunk_view, leading_word, split_words, split_ws, text_payload, RecordedResponse, SseChunk,
};
pub use router::{lemma_queue_push, lemma_queue_remove_first, queue, Router};
pub use validation::{
    check_required_fields, fields_outcome, messages_field, missing_field_message, model_field,
    validate_request, MockServerError,
};
