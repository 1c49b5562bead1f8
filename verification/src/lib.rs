//! Verified building blocks for LLM agent infrastructure.
pub mod agent_graph;
pub mod agent_memory;
pub mod embeddings;
pub mod eval_harness;
pub mod json;
pub mod llm_client;
pub mod mock_server;
pub mod onnx;
pub mod outside;
pub mod prompt_template;
pub mod text;
