//! Agent memory: a graph of labelled nodes and relationships between them,
//! the keyword test of memory search, entry ids, and memory errors.
mod error;
mod graph;
mod search;

pub use error::MemoryError;
pub use graph::{lemma_neighbors_after_edge, lemma_neighbors_are_out_edges, neighbors_spec, MemoryGraph};
pub use search::{
    entry_id, entry_id_spec, keyword_match, keyword_matches, lemma_entry_ids_differ,
    lemma_keyword_in_content, lemma_keyword_in_tag, lemma_keyword_match_found,
};
