use vstd::prelude::*;

use super::request::Message;

verus! {

/// Complete chat response.
#[derive(Debug, Clone)]
pub struct ChatResponse {
    pub id: String,
    pub choices: Vec<Choice>,
    pub usage: Option<Usage>,
}

/// A single choice in the response.
#[derive(Debug, Clone)]
pub struct Choice {
    pub index: u32,
    pub message: Message,
    pub finish_reason: Option<String>,
}

/// A tool call requested by the model in a non-streaming response.
#[derive(Debug, Clone)]
pub struct ToolCall {
    /// Index of this tool call (for ordering).
    pub index: u32,
    /// Provider-assigned tool-call id.
    pub id: String,
    /// The tool type (typically `"function"`).
    pub tool_type: String,
    /// The function being called.
    pub function: ToolCallFunction,
}

/// Function details inside a [`ToolCall`].
#[derive(Debug, Clone)]
pub struct ToolCallFunction {
    /// Function name matching one of the tools in the request.
    pub name: String,
    /// JSON-encoded arguments string.
    pub arguments: String,
}

/// Usage statistics.
#[derive(Debug, Clone, Copy, PartialEq, Eq, Structural)]
pub struct Usage {
    pub prompt_tokens: u32,
    pub completion_tokens: u32,
    pub total_tokens: u32,
}

/// Streaming chunk.
#[derive(Debug, Clone)]
pub struct StreamChunk {
    pub id: String,
    pub choices: Vec<StreamChoice>,
}

/// A choice in a streaming chunk.
#[derive(Debug, Clone)]
pub struct StreamChoice {
    pub index: u32,
    pub delta: Delta,
    pub finish_reason: Option<String>,
}

/// Delta in a streaming chunk.
#[derive(Debug, Clone)]
pub struct Delta {
    pub role: Option<String>,
    pub content: Option<String>,
    /// Partial tool-call deltas; each carries an argument fragment to append
    /// to the argument buffer of its tool call.
    pub tool_calls: Option<Vec<ToolCallDelta>>,
}

/// A single tool-call delta from a streaming chunk.
#[derive(Debug, Clone)]
pub struct ToolCallDelta {
    /// Index of this tool call in the delta's `tool_calls` array.
    pub index: u32,
    /// The tool-call id (only in the first delta for each call).
    pub id: Option<String>,
    /// The tool type (only in the first delta for each call).
    pub tool_type: Option<String>,
    /// Function details.
    pub function: Option<ToolCallFunctionDelta>,
}

/// Function details within a tool-call delta.
#[derive(Debug, Clone)]
pub struct ToolCallFunctionDelta {
    /// Function name (only in the first delta for each call).
    pub name: Option<String>,
    /// Partial JSON arguments.
    pub arguments: Option<String>,
}

}
