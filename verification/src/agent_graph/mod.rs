//! State-machine orchestration for LLM agent turns: an [`AgentGraph`] of
//! named nodes that each pick the next node to run, and a [`ToolRegistry`]
//! that routes tool calls to handlers by name.
mod error;
mod graph;
mod registry;

pub use error::{GraphError, ToolDispatchError};
pub use graph::{
    lemma_run_within_budget, outcome_view, run_spec, run_view, walk, AgentGraph, GraphView, Node,
    NodeOutcome,
    RunView, DEFAULT_STEP_BUDGET,
};
pub use registry::{handler_allows, handler_outcome, ToolRegistry};
