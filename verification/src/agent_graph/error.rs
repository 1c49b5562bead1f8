use vstd::prelude::*;

use crate::text::{decimal, decimal_spec};

verus! {

/// Errors produced while executing an `AgentGraph`.
#[derive(Debug, Clone, PartialEq, Eq)]
pub enum GraphError {
    /// A node's outcome named a node that was never added to the graph.
    UnknownNode(String),
    /// Execution exceeded the configured step budget without halting.
    StepBudgetExceeded { limit: usize },
    /// The graph has no entry node registered under its configured entry name.
    MissingEntryNode(String),
}

impl GraphError {
    /// The message that describes this error.
    pub fn message(&self) -> (r: String)
        ensures
            match self {
                GraphError::UnknownNode(name) => r@ == "node `"@ + name@ + "` was not added to the graph"@,
                GraphError::StepBudgetExceeded { limit } => r@
                    == "graph execution exceeded its step budget of "@ + decimal_spec(*limit as nat),
                GraphError::MissingEntryNode(name) => r@ == "entry node `"@ + name@
                    + "` was not added to the graph"@,
            },
    {
        let mut r = String::new();
        assert(r@ =~= Seq::<char>::empty());
        match self {
            GraphError::UnknownNode(name) => {
                r.append("node `");
                r.append(name.as_str());
                r.append("` was not added to the graph");
            },
            GraphError::StepBudgetExceeded { limit } => {
                r.append("graph execution exceeded its step budget of ");
                r.append(decimal(*limit as u64).as_str());
            },
            GraphError::MissingEntryNode(name) => {
                r.append("entry node `");
                r.append(name.as_str());
                r.append("` was not added to the graph");
            },
        }
        r
    }
}

/// Errors produced while dispatching a tool call through a `ToolRegistry`.
#[derive(Debug, Clone, PartialEq, Eq)]
pub enum ToolDispatchError {
    /// No handler was registered under this tool name.
    UnknownTool(String),
    /// The handler itself returned an error.
    Handler(String),
}

impl ToolDispatchError {
    /// The message that describes this error.
    pub fn message(&self) -> (r: String)
        ensures
            match self {
                ToolDispatchError::UnknownTool(name) => r@ == "no tool registered under the name `"@
                    + name@ + "`"@,
                ToolDispatchError::Handler(msg) => r@ == "tool handler failed: "@ + msg@,
            },
    {
        let mut r = String::new();
        assert(r@ =~= Seq::<char>::empty());
        match self {
            ToolDispatchError::UnknownTool(name) => {
                r.append("no tool registered under the name `");
                r.append(name.as_str());
                r.append("`");
            },
            ToolDispatchError::Handler(msg) => {
                r.append("tool handler failed: ");
                r.append(msg.as_str());
            },
        }
        r
    }
}

}
