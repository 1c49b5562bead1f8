use vstd::prelude::*;

verus! {

/// Configuration for the evaluation harness.
#[derive(Debug, Clone)]
pub struct EvalConfig {
    pub max_concurrency: usize,
    pub timeout_ms: u64,
    pub retry_count: u32,
}

impl EvalConfig {
    /// A configuration with the given settings.
    pub fn new(max_concurrency: usize, timeout_ms: u64, retry_count: u32) -> (r: Self)
        ensures
            r.max_concurrency == max_concurrency,
            r.timeout_ms == timeout_ms,
            r.retry_count == retry_count,
    {
        EvalConfig { max_concurrency, timeout_ms, retry_count }
    }
}

impl Default for EvalConfig {
    /// Eight at a time, 30 s time-out, three retries.
    fn default() -> (r: Self)
        ensures
            r.max_concurrency == 8,
            r.timeout_ms == 30000,
            r.retry_count == 3,
    {
        EvalConfig { max_concurrency: 8, timeout_ms: 30000, retry_count: 3 }
    }
}

}
