use vstd::prelude::*;
use vstd::wrapping::u64_specs::wrapping_add;

use crate::text::owned;

verus! {

/// A single evaluation sample with input, expected output, and actual output.
#[derive(Debug, Clone)]
pub struct EvalSample {
    pub input: String,
    pub expected: String,
    pub output: String,
    pub prompt_tokens: u64,
    pub completion_tokens: u64,
}

impl EvalSample {
    /// A sample with no tokens counted.
    pub fn new(input: &str, expected: &str, output: &str) -> (r: Self)
        ensures
            r.input@ == input@,
            r.expected@ == expected@,
            r.output@ == output@,
            r.prompt_tokens == 0,
            r.completion_tokens == 0,
    {
        EvalSample {
            input: owned(input),
            expected: owned(expected),
            output: owned(output),
            prompt_tokens: 0,
            completion_tokens: 0,
        }
    }
}

/// Token usage statistics.
#[derive(Debug, Clone, Copy, Default, PartialEq, Eq, Structural)]
pub struct TokenUsage {
    pub prompt_tokens: u64,
    pub completion_tokens: u64,
    pub total_tokens: u64,
}

/// Evaluation metrics.
#[derive(Debug, Clone)]
pub struct EvalMetrics {
    pub total_samples: usize,
    pub correct: usize,
    pub token_usage: TokenUsage,
    pub latency_ms: u64,
}

/// The token usage of samples `s`: each counter is the sum of the samples'
/// tokens (the total adds prompt and completion tokens of each sample),
/// wrapping around at 2^64.
pub open spec fn token_tally(s: Seq<EvalSample>) -> TokenUsage
    decreases s.len(),
{
    if s.len() == 0 {
        TokenUsage { prompt_tokens: 0, completion_tokens: 0, total_tokens: 0 }
    } else {
        let t = token_tally(s.drop_last());
        let x = s.last();
        TokenUsage {
            prompt_tokens: wrapping_add(t.prompt_tokens, x.prompt_tokens),
            completion_tokens: wrapping_add(t.completion_tokens, x.completion_tokens),
            total_tokens: wrapping_add(
                t.total_tokens,
                wrapping_add(x.prompt_tokens, x.completion_tokens),
            ),
        }
    }
}

/// The sum of the prompt tokens of samples `s`.
pub open spec fn prompt_sum(s: Seq<EvalSample>) -> nat
    decreases s.len(),
{
    if s.len() == 0 {
        0
    } else {
        prompt_sum(s.drop_last()) + s.last().prompt_tokens as nat
    }
}

/// The sum of the completion tokens of samples `s`.
pub open spec fn completion_sum(s: Seq<EvalSample>) -> nat
    decreases s.len(),
{
    if s.len() == 0 {
        0
    } else {
        completion_sum(s.drop_last()) + s.last().completion_tokens as nat
    }
}

/// Law: when the tokens of all samples together fit in a `u64`, the tally
/// is the plain sum: prompt tokens, completion tokens, and their total.
pub proof fn lemma_tally_is_sum(s: Seq<EvalSample>)
    requires
        prompt_sum(s) + completion_sum(s) <= u64::MAX,
    ensures
        token_tally(s).prompt_tokens == prompt_sum(s),
        token_tally(s).completion_tokens == completion_sum(s),
        token_tally(s).total_tokens == prompt_sum(s) + completion_sum(s),
    decreases s.len(),
{
    if s.len() > 0 {
        lemma_tally_is_sum(s.drop_last());
    }
}

/// The number of `true`s in `b`.
pub open spec fn count_true(b: Seq<bool>) -> nat
    decreases b.len(),
{
    if b.len() == 0 {
        0
    } else {
        count_true(b.drop_last()) + if b.last() {
            1nat
        } else {
            0nat
        }
    }
}

/// No more values are `true` than there are values.
pub proof fn lemma_count_true_bound(b: Seq<bool>)
    ensures
        count_true(b) <= b.len(),
    decreases b.len(),
{
    if b.len() > 0 {
        lemma_count_true_bound(b.drop_last());
    }
}

impl EvalMetrics {
    /// No samples, nothing correct, no tokens, no latency.
    pub fn new() -> (r: Self)
        ensures
            r.total_samples == 0,
            r.correct == 0,
            r.token_usage == (TokenUsage { prompt_tokens: 0, completion_tokens: 0, total_tokens: 0 }),
            r.latency_ms == 0,
    {
        EvalMetrics {
            total_samples: 0,
            correct: 0,
            token_usage: TokenUsage { prompt_tokens: 0, completion_tokens: 0, total_tokens: 0 },
            latency_ms: 0,
        }
    }

    /// The metrics of `samples`, of which those marked in `passed` count as
    /// correct.
    pub fn tally(samples: &[EvalSample], passed: &[bool]) -> (r: Self)
        requires
            samples@.len() == passed@.len(),
        ensures
            r.total_samples == samples@.len(),
            r.correct == count_true(passed@),
            r.correct <= r.total_samples,
            r.token_usage == token_tally(samples@),
            r.latency_ms == 0,
    {
        let mut m = EvalMetrics::new();
        m.total_samples = samples.len();
        let mut i: usize = 0;
        while i < samples.len()
            invariant
                i <= samples@.len() == passed@.len(),
                m.total_samples == samples@.len(),
                m.correct == count_true(passed@.take(i as int)),
                m.token_usage == token_tally(samples@.take(i as int)),
                m.latency_ms == 0,
            decreases samples.len() - i,
        {
            proof {
                assert(passed@.take(i + 1).drop_last() =~= passed@.take(i as int));
                assert(samples@.take(i + 1).drop_last() =~= samples@.take(i as int));
                lemma_count_true_bound(passed@.take(i as int));
            }
            if passed[i] {
                m.correct = m.correct + 1;
            }
            let s = &samples[i];
            m.token_usage.prompt_tokens = m.token_usage.prompt_tokens.wrapping_add(s.prompt_tokens);
            m.token_usage.completion_tokens = m.token_usage.completion_tokens.wrapping_add(
                s.completion_tokens,
            );
            m.token_usage.total_tokens = m.token_usage.total_tokens.wrapping_add(
                s.prompt_tokens.wrapping_add(s.completion_tokens),
            );
            i = i + 1;
        }
        assert(passed@.take(i as int) =~= passed@);
        assert(samples@.take(i as int) =~= samples@);
        proof {
            lemma_count_true_bound(passed@);
        }
        m
    }
}

impl Default for EvalMetrics {
    /// No samples, nothing correct, no tokens, no latency.
    fn default() -> (r: Self)
        ensures
            r.total_samples == 0,
            r.correct == 0,
            r.token_usage == (TokenUsage { prompt_tokens: 0, completion_tokens: 0, total_tokens: 0 }),
            r.latency_ms == 0,
    {
        EvalMetrics::new()
    }
}

}
