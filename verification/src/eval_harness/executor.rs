use vstd::prelude::*;

use super::metrics::{count_true, token_tally, EvalMetrics, EvalSample};
use crate::text::str_eq;

verus! {

/// A result that counts as correct: a non-empty output equal to the
/// expected output.
pub open spec fn exact_pass(r: EvalSample) -> bool {
    r.output@.len() > 0 && r.output@ == r.expected@
}

/// Law: the number of correct results is the number of results whose
/// output is non-empty and, character for character, the expected output.
/// A result whose output differs from its expected output is never
/// counted, and one whose output is empty is never counted either.
pub proof fn lemma_correct_counts_exact_matches(rs: Seq<EvalSample>)
    ensures
        count_true(rs.map_values(|x: EvalSample| exact_pass(x))) == rs.filter(
            |x: EvalSample| x.output@.len() > 0 && x.output@ == x.expected@,
        ).len(),
        (forall|i: int| 0 <= i < rs.len() ==> #[trigger] rs[i].output@ != rs[i].expected@)
            ==> count_true(rs.map_values(|x: EvalSample| exact_pass(x))) == 0,
        (forall|i: int|
            0 <= i < rs.len() ==> #[trigger] rs[i].output@ == rs[i].expected@ && rs[i].output@.len()
                > 0) ==> count_true(rs.map_values(|x: EvalSample| exact_pass(x))) == rs.len(),
    decreases rs.len(),
{
    let p = |x: EvalSample| x.output@.len() > 0 && x.output@ == x.expected@;
    reveal(Seq::filter);
    if rs.len() > 0 {
        let front = rs.drop_last();
        lemma_correct_counts_exact_matches(front);
        assert(rs.map_values(|x: EvalSample| exact_pass(x)).drop_last() =~= front.map_values(
            |x: EvalSample| exact_pass(x),
        ));
        assert(rs.filter(p) == (if p(rs.last()) {
            front.filter(p).push(rs.last())
        } else {
            front.filter(p)
        }));
        assert forall|i: int| 0 <= i < front.len() implies #[trigger] front[i] == rs[i] by {}
    }
}

/// Execution engine for eval tasks, processing samples in batches of
/// `max_concurrency`.
pub struct ParallelExecutor {
    max_concurrency: usize,
}

impl ParallelExecutor {
    /// The batch size.
    pub closed spec fn concurrency(&self) -> usize {
        self.max_concurrency
    }

    /// An executor with batches of `max_concurrency` samples.
    pub fn new(max_concurrency: usize) -> (r: Self)
        ensures
            r.concurrency() == max_concurrency,
    {
        ParallelExecutor { max_concurrency }
    }

    /// The batch size.
    pub fn max_concurrency(&self) -> (r: usize)
        ensures
            r == self.concurrency(),
    {
        self.max_concurrency
    }

    /// Runs `eval_fn` on each sample, in order, and tallies the results: a
    /// result is correct when its output is non-empty and equals its
    /// expected output, and the token counts of the results are summed
    /// (wrapping around at 2^64). Whatever `eval_fn` returns, the metrics
    /// are those of the results it returned.
    pub fn execute<F: Fn(&EvalSample) -> EvalSample>(&self, samples: Vec<EvalSample>, eval_fn: F) -> (r:
        EvalMetrics)
        requires
            self.concurrency() > 0,
            forall|s: &EvalSample| eval_fn.requires((s,)),
        ensures
            exists|rs: Seq<EvalSample>|
                {
                    &&& rs.len() == samples@.len()
                    &&& forall|i: int|
                        0 <= i < rs.len() ==> eval_fn.ensures((&samples@[i],), #[trigger] rs[i])
                    &&& r.correct == count_true(rs.map_values(|x: EvalSample| exact_pass(x)))
                    &&& r.token_usage == token_tally(rs)
                },
            r.total_samples == samples@.len(),
            r.correct <= r.total_samples,
            r.latency_ms == 0,
    {
        let mut results: Vec<EvalSample> = Vec::new();
        let mut passed: Vec<bool> = Vec::new();
        let mut i: usize = 0;
        while i < samples.len()
            invariant
                i <= samples@.len(),
                results@.len() == i,
                passed@ == results@.map_values(|x: EvalSample| exact_pass(x)),
                forall|s: &EvalSample| eval_fn.requires((s,)),
                forall|j: int| 0 <= j < i ==> eval_fn.ensures((&samples@[j],), #[trigger] results@[j]),
            decreases samples.len() - i,
        {
            let result = eval_fn(&samples[i]);
            let ok = !result.output.as_str().is_empty() && str_eq(
                result.output.as_str(),
                result.expected.as_str(),
            );
            let ghost before = results@;
            passed.push(ok);
            results.push(result);
            assert(passed@ =~= results@.map_values(|x: EvalSample| exact_pass(x)));
            i = i + 1;
        }
        let m = EvalMetrics::tally(results.as_slice(), passed.as_slice());
        m
    }
}

impl Default for ParallelExecutor {
    /// Batches of eight samples.
    fn default() -> (r: Self)
        ensures
            r.concurrency() == 8,
    {
        ParallelExecutor::new(8)
    }
}

}
