use vstd::prelude::*;

use super::response::Usage;

verus! {

/// Accumulated usage totals.
#[derive(Debug, Clone, Copy, Default, PartialEq, Eq, Structural)]
pub struct UsageTotals {
    pub prompt_tokens: u64,
    pub completion_tokens: u64,
    pub total_tokens: u64,
    /// Number of requests recorded.
    pub request_count: u64,
}

/// The totals of nothing recorded.
pub open spec fn zero_totals() -> UsageTotals {
    UsageTotals { prompt_tokens: 0, completion_tokens: 0, total_tokens: 0, request_count: 0 }
}

/// `t` with one more request of usage `u` added.
pub open spec fn add_usage(t: UsageTotals, u: Usage) -> UsageTotals {
    UsageTotals {
        prompt_tokens: (t.prompt_tokens + u.prompt_tokens) as u64,
        completion_tokens: (t.completion_tokens + u.completion_tokens) as u64,
        total_tokens: (t.total_tokens + u.total_tokens) as u64,
        request_count: (t.request_count + 1) as u64,
    }
}

/// Whether `u` can be added to `t` without overflowing a counter.
pub open spec fn can_add(t: UsageTotals, u: Usage) -> bool {
    &&& t.prompt_tokens + u.prompt_tokens <= u64::MAX
    &&& t.completion_tokens + u.completion_tokens <= u64::MAX
    &&& t.total_tokens + u.total_tokens <= u64::MAX
    &&& t.request_count + 1 <= u64::MAX
}

/// The totals after recording `us`, in order, starting from `t`.
pub open spec fn record_all(t: UsageTotals, us: Seq<Usage>) -> UsageTotals
    decreases us.len(),
{
    if us.len() == 0 {
        t
    } else {
        add_usage(record_all(t, us.drop_last()), us.last())
    }
}

/// Sum of the prompt tokens of `us`.
pub open spec fn sum_prompt(us: Seq<Usage>) -> int
    decreases us.len(),
{
    if us.len() == 0 {
        0
    } else {
        sum_prompt(us.drop_last()) + us.last().prompt_tokens
    }
}

/// Sum of the completion tokens of `us`.
pub open spec fn sum_completion(us: Seq<Usage>) -> int
    decreases us.len(),
{
    if us.len() == 0 {
        0
    } else {
        sum_completion(us.drop_last()) + us.last().completion_tokens
    }
}

/// Sum of the total tokens of `us`.
pub open spec fn sum_total(us: Seq<Usage>) -> int
    decreases us.len(),
{
    if us.len() == 0 {
        0
    } else {
        sum_total(us.drop_last()) + us.last().total_tokens
    }
}

/// Law: recording a sequence of usages on fresh totals counts the requests
/// and sums each kind of token, as long as no counter overflows.
pub proof fn lemma_record_all_sums(us: Seq<Usage>)
    requires
        sum_prompt(us) <= u64::MAX,
        sum_completion(us) <= u64::MAX,
        sum_total(us) <= u64::MAX,
        us.len() <= u64::MAX,
    ensures
        record_all(zero_totals(), us).prompt_tokens == sum_prompt(us),
        record_all(zero_totals(), us).completion_tokens == sum_completion(us),
        record_all(zero_totals(), us).total_tokens == sum_total(us),
        record_all(zero_totals(), us).request_count == us.len(),
    decreases us.len(),
{
    if us.len() > 0 {
        lemma_record_all_sums(us.drop_last());
    }
}

/// Accumulates token usage across requests.
#[derive(Debug)]
pub struct UsageTracker {
    totals: UsageTotals,
}

impl UsageTracker {
    /// The totals accumulated so far.
    pub closed spec fn totals(&self) -> UsageTotals {
        self.totals
    }

    /// A tracker with all counters at zero.
    pub fn new() -> (r: Self)
        ensures
            r.totals() == zero_totals(),
    {
        UsageTracker { totals: UsageTotals { prompt_tokens: 0, completion_tokens: 0, total_tokens: 0, request_count: 0 } }
    }

    /// Adds the tokens of one response and counts one more request.
    pub fn record(&mut self, usage: &Usage)
        requires
            can_add(old(self).totals(), *usage),
        ensures
            final(self).totals() == add_usage(old(self).totals(), *usage),
    {
        self.totals.prompt_tokens = self.totals.prompt_tokens + usage.prompt_tokens as u64;
        self.totals.completion_tokens = self.totals.completion_tokens + usage.completion_tokens as u64;
        self.totals.total_tokens = self.totals.total_tokens + usage.total_tokens as u64;
        self.totals.request_count = self.totals.request_count + 1;
    }

    /// The current totals.
    pub fn snapshot(&self) -> (r: UsageTotals)
        ensures
            r == self.totals(),
    {
        self.totals
    }

    /// Sets all counters back to zero.
    pub fn reset(&mut self)
        ensures
            final(self).totals() == zero_totals(),
    {
        self.totals = UsageTotals { prompt_tokens: 0, completion_tokens: 0, total_tokens: 0, request_count: 0 };
    }
}

impl Default for UsageTracker {
    /// A tracker with all counters at zero.
    fn default() -> (r: Self)
        ensures
            r.totals() == zero_totals(),
    {
        UsageTracker::new()
    }
}

}
