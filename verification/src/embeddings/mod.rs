//! Embedding API plumbing that does not depend on the transport: request
//! shapes, batch checks, ordering of provider results and their ids.
mod order;
mod types;

pub use order::{by_key_then_index, is_stable_order, sorted_positions};
pub use types::{
    check_embeddings_present, cohere_embed_url, id_for, openai_embeddings_url, result_ids,
    EmbeddingMeta, EmbeddingRequest, EmbeddingsError,
};
