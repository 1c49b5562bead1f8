use vstd::prelude::*;

use super::response::ToolCall;
use crate::text::owned;

verus! {

/// Message role.
#[derive(Debug, Clone, Copy, PartialEq, Eq, Structural)]
pub enum Role {
    System,
    User,
    Assistant,
    /// Tool result message (follows a tool call from the assistant).
    Tool,
}

/// A chat message.
#[derive(Debug, Clone)]
pub struct Message {
    pub role: Role,
    pub content: Option<String>,
    /// Tool calls requested by the model.
    pub tool_calls: Option<Vec<ToolCall>>,
    /// For `role = "tool"`: the tool-call id this message responds to.
    pub tool_call_id: Option<String>,
}

/// `m` has role `role`, the given content, and no tool calls or tool-call id.
pub open spec fn is_plain(m: Message, role: Role, content: Seq<char>) -> bool {
    &&& m.role == role
    &&& m.content matches Some(c) && c@ == content
    &&& m.tool_calls is None
    &&& m.tool_call_id is None
}

impl Message {
    /// A system message.
    pub fn system(content: &str) -> (r: Self)
        ensures
            is_plain(r, Role::System, content@),
    {
        Message { role: Role::System, content: Some(owned(content)), tool_calls: None, tool_call_id: None }
    }

    /// A user message.
    pub fn user(content: &str) -> (r: Self)
        ensures
            is_plain(r, Role::User, content@),
    {
        Message { role: Role::User, content: Some(owned(content)), tool_calls: None, tool_call_id: None }
    }

    /// An assistant message.
    pub fn assistant(content: &str) -> (r: Self)
        ensures
            is_plain(r, Role::Assistant, content@),
    {
        Message { role: Role::Assistant, content: Some(owned(content)), tool_calls: None, tool_call_id: None }
    }

    /// A tool-result message answering the tool call `tool_call_id`.
    pub fn tool(tool_call_id: &str, content: &str) -> (r: Self)
        ensures
            r.role == Role::Tool,
            r.content matches Some(c) && c@ == content@,
            r.tool_calls is None,
            r.tool_call_id matches Some(i) && i@ == tool_call_id@,
    {
        Message {
            role: Role::Tool,
            content: Some(owned(content)),
            tool_calls: None,
            tool_call_id: Some(owned(tool_call_id)),
        }
    }

    /// The text content, or `""` when there is none.
    pub fn text(&self) -> (r: &str)
        ensures
            r@ == match self.content {
                Some(c) => c@,
                None => Seq::<char>::empty(),
            },
    {
        match &self.content {
            Some(c) => c.as_str(),
            None => {
                let e = "";
                proof {
                    reveal_strlit("");
                }
                e
            },
        }
    }
}

}
