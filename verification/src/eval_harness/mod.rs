//! Deterministic evaluation of LLM outputs: samples, scoring rules, and the
//! metrics of a run.
mod config;
mod dataset;
mod error;
mod executor;
mod metrics;
mod scoring;

pub use config::EvalConfig;
pub use dataset::{dataset_items, dataset_lines, line_item, numbered_view};
pub use error::EvalError;
pub use executor::{exact_pass, lemma_correct_counts_exact_matches, ParallelExecutor};
pub use metrics::{
    completion_sum, count_true, lemma_count_true_bound, lemma_tally_is_sum, prompt_sum, token_tally,
    EvalMetrics, EvalSample, TokenUsage,
};
pub use scoring::{
    contains_pass, lemma_contains_pass_at, lemma_contains_pass_substring, lemma_exact_implies_contains,
    ContainsScorer,
    ExactMatchScorer,
};
