use vstd::prelude::*;

use super::request::Role;
use crate::text::{chars_of, string_from_range};

verus! {

/// Supported LLM providers.
#[derive(Debug, Clone, Copy, PartialEq, Eq, Structural)]
pub enum Provider {
    OpenAi,
    Anthropic,
    Ollama,
}

/// `s` without its trailing `/` characters.
pub open spec fn trim_end_slashes(s: Seq<char>) -> Seq<char>
    decreases s.len(),
{
    if s.len() > 0 && s.last() == '/' {
        trim_end_slashes(s.drop_last())
    } else {
        s
    }
}

/// The path of the chat endpoint of each provider.
pub open spec fn endpoint_path(p: Provider) -> Seq<char> {
    match p {
        Provider::OpenAi => seq!['/', 'c', 'h', 'a', 't', '/', 'c', 'o', 'm', 'p', 'l', 'e', 't', 'i', 'o', 'n', 's'],
        Provider::Anthropic => seq!['/', 'm', 'e', 's', 's', 'a', 'g', 'e', 's'],
        Provider::Ollama => seq!['/', 'a', 'p', 'i', '/', 'c', 'h', 'a', 't'],
    }
}

/// `base` without its trailing `/` characters (`trim_end_matches('/')`).
pub fn trim_trailing_slashes(base: &str) -> (r: String)
    ensures
        r@ == trim_end_slashes(base@),
{
    let cs = chars_of(base);
    let mut end = cs.len();
    assert(cs@.take(end as int) =~= cs@);
    while end > 0 && cs[end - 1] == '/'
        invariant
            end <= cs@.len(),
            cs@ == base@,
            trim_end_slashes(base@) == trim_end_slashes(cs@.take(end as int)),
        decreases end,
    {
        assert(cs@.take(end as int).drop_last() =~= cs@.take(end - 1));
        end = end - 1;
    }
    assert(trim_end_slashes(cs@.take(end as int)) == cs@.take(end as int));
    assert(cs@.subrange(0, end as int) =~= cs@.take(end as int));
    string_from_range(&cs, 0, end)
}

/// The request URL for a provider: the base URL without trailing slashes,
/// followed by the provider's chat path.
pub fn endpoint(base_url: &str, provider: Provider) -> (r: String)
    ensures
        r@ == trim_end_slashes(base_url@) + endpoint_path(provider),
{
    let mut r = trim_trailing_slashes(base_url);
    let path = match provider {
        Provider::OpenAi => "/chat/completions",
        Provider::Anthropic => "/messages",
        Provider::Ollama => "/api/chat",
    };
    proof {
        reveal_strlit("/chat/completions");
        reveal_strlit("/messages");
        reveal_strlit("/api/chat");
    }
    r.append(path);
    r
}

/// The name of a role in request bodies.
pub open spec fn role_name(role: Role) -> Seq<char> {
    match role {
        Role::System => seq!['s', 'y', 's', 't', 'e', 'm'],
        Role::User => seq!['u', 's', 'e', 'r'],
        Role::Assistant => seq!['a', 's', 's', 'i', 's', 't', 'a', 'n', 't'],
        Role::Tool => seq!['t', 'o', 'o', 'l'],
    }
}

/// The name of a role in request bodies.
pub fn role_str(role: Role) -> (r: &'static str)
    ensures
        r@ == role_name(role),
{
    proof {
        reveal_strlit("system");
        reveal_strlit("user");
        reveal_strlit("assistant");
        reveal_strlit("tool");
    }
    match role {
        Role::System => "system",
        Role::User => "user",
        Role::Assistant => "assistant",
        Role::Tool => "tool",
    }
}

/// Retry policy for transient request failures (connection errors, HTTP
/// 429, HTTP 5xx).
#[derive(Debug, Clone, Copy)]
pub struct RetryConfig {
    /// Total attempts, including the first. `1` disables retrying.
    pub max_attempts: u32,
    /// Delay before the first retry; doubles after each subsequent attempt.
    pub base_delay_ms: u64,
}

impl RetryConfig {
    /// Three attempts, 200 ms before the first retry.
    pub fn default_config() -> (r: Self)
        ensures
            r.max_attempts == 3,
            r.base_delay_ms == 200,
    {
        RetryConfig { max_attempts: 3, base_delay_ms: 200 }
    }
}

impl Default for RetryConfig {
    fn default() -> (r: Self)
        ensures
            r.max_attempts == 3,
            r.base_delay_ms == 200,
    {
        RetryConfig::default_config()
    }
}

/// `d` doubled, saturating at `u64::MAX`.
pub open spec fn sat_double(d: u64) -> u64 {
    if 2 * d > u64::MAX {
        u64::MAX
    } else {
        (2 * d) as u64
    }
}

/// The delay before the `k`-th retry (counting from 0): the base delay
/// doubled `k` times, saturating.
pub open spec fn backoff(base: u64, k: nat) -> u64
    decreases k,
{
    if k == 0 {
        base
    } else {
        sat_double(backoff(base, (k - 1) as nat))
    }
}

/// What to do after an attempt failed.
#[derive(Debug, Clone, Copy, PartialEq, Eq, Structural)]
pub enum RetryDecision {
    /// Wait this many milliseconds, then make the next attempt.
    RetryAfter(u64),
    /// Return the error.
    GiveUp,
}

/// The progress of a request that is retried on transient failures: the
/// number of attempts that failed so far, and the delay before the next
/// retry.
pub struct RetryState {
    failed: u32,
    delay_ms: u64,
}

impl RetryState {
    /// The number of failed attempts.
    pub closed spec fn failed(&self) -> nat {
        self.failed as nat
    }

    /// The delay before the next retry.
    pub closed spec fn delay(&self) -> u64 {
        self.delay_ms
    }

    /// Before the first attempt.
    pub fn new(config: &RetryConfig) -> (r: Self)
        ensures
            r.failed() == 0,
            r.delay() == config.base_delay_ms,
    {
        RetryState { failed: 0, delay_ms: config.base_delay_ms }
    }

    /// Decides what follows a failed attempt, whose error is `retryable` or
    /// not. An attempt is retried when it was not the last one allowed and
    /// its error is retryable; the delay then doubles (saturating).
    pub fn on_failure(&mut self, config: &RetryConfig, retryable: bool) -> (r: RetryDecision)
        requires
            old(self).failed() < config.max_attempts,
            old(self).delay() == backoff(config.base_delay_ms, old(self).failed()),
        ensures
            if old(self).failed() + 1 < config.max_attempts && retryable {
                &&& r == RetryDecision::RetryAfter(old(self).delay())
                &&& final(self).failed() == old(self).failed() + 1
                &&& final(self).delay() == backoff(config.base_delay_ms, final(self).failed())
            } else {
                r == RetryDecision::GiveUp && final(self).failed() == old(self).failed()
            },
    {
        if self.failed + 1 < config.max_attempts && retryable {
            let d = self.delay_ms;
            self.failed = self.failed + 1;
            self.delay_ms = if self.delay_ms > u64::MAX / 2 {
                u64::MAX
            } else {
                self.delay_ms * 2
            };
            RetryDecision::RetryAfter(d)
        } else {
            RetryDecision::GiveUp
        }
    }
}

/// The number of failed attempts after which a request gives up or
/// succeeds, when it starts with `failed` failures and its next failures
/// are retryable as `flags` says, and the decisions of `on_failure` are
/// followed.
pub open spec fn retries(max: nat, failed: nat, flags: Seq<bool>) -> nat
    decreases flags.len(),
{
    if flags.len() == 0 {
        failed
    } else if failed + 1 < max && flags[0] {
        retries(max, failed + 1, flags.drop_first())
    } else {
        failed
    }
}

/// Law: a request is attempted at most `max_attempts` times, whatever its
/// failures are: the failures that are retried stay below the limit.
pub proof fn lemma_attempts_bounded(max: nat, failed: nat, flags: Seq<bool>)
    requires
        failed < max,
    ensures
        retries(max, failed, flags) < max,
        retries(max, failed, flags) >= failed,
    decreases flags.len(),
{
    if flags.len() > 0 && failed + 1 < max && flags[0] {
        lemma_attempts_bounded(max, failed + 1, flags.drop_first());
    }
}

/// The delays waited between the attempts of a request that starts with
/// `failed` failures, whose next failures are retryable as `flags` says, when
/// the decisions of `on_failure` are followed.
pub open spec fn retry_delays(max: nat, base: u64, failed: nat, flags: Seq<bool>) -> Seq<u64>
    decreases flags.len(),
{
    if flags.len() > 0 && failed + 1 < max && flags[0] {
        seq![backoff(base, failed)] + retry_delays(max, base, failed + 1, flags.drop_first())
    } else {
        Seq::empty()
    }
}

proof fn lemma_retry_delays_from(max: nat, base: u64, failed: nat, flags: Seq<bool>)
    ensures
        retry_delays(max, base, failed, flags).len() + failed == retries(max, failed, flags),
        forall|k: int|
            0 <= k < retry_delays(max, base, failed, flags).len() ==> #[trigger] retry_delays(
                max,
                base,
                failed,
                flags,
            )[k] == backoff(base, (failed + k) as nat),
    decreases flags.len(),
{
    if flags.len() > 0 && failed + 1 < max && flags[0] {
        lemma_retry_delays_from(max, base, failed + 1, flags.drop_first());
        let rest = retry_delays(max, base, failed + 1, flags.drop_first());
        let all = retry_delays(max, base, failed, flags);
        assert(all == seq![backoff(base, failed)] + rest);
        assert forall|k: int| 0 <= k < all.len() implies #[trigger] all[k] == backoff(
            base,
            (failed + k) as nat,
        ) by {
            if k > 0 {
                assert(all[k] == rest[k - 1]);
            }
        }
    }
}

/// Law: a request whose attempts fail as `flags` says (each failure
/// retryable or not) is attempted at most `max` times, and the delays
/// waited before the retries are the base delay, then twice it, and so on,
/// doubling (saturating) before each further retry; a request stops
/// retrying at its first failure that is not retryable.
pub proof fn lemma_retry_schedule(max: nat, base: u64, flags: Seq<bool>)
    requires
        max >= 1,
    ensures
        retry_delays(max, base, 0, flags).len() == retries(max, 0, flags),
        retries(max, 0, flags) < max,
        forall|k: int|
            0 <= k < retries(max, 0, flags) ==> #[trigger] retry_delays(max, base, 0, flags)[k]
                == backoff(base, k as nat),
        forall|k: int| 0 <= k < retries(max, 0, flags) ==> #[trigger] flags[k],
        retries(max, 0, flags) < flags.len() && retries(max, 0, flags) + 1 < max ==> !flags[retries(
            max,
            0,
            flags,
        ) as int],
{
    lemma_retry_delays_from(max, base, 0, flags);
    lemma_attempts_bounded(max, 0, flags);
    lemma_retries_stop(max, 0, flags);
}

proof fn lemma_retries_stop(max: nat, failed: nat, flags: Seq<bool>)
    requires
        failed < max,
    ensures
        failed <= retries(max, failed, flags) <= failed + flags.len(),
        forall|k: int| 0 <= k < retries(max, failed, flags) - failed ==> #[trigger] flags[k],
        retries(max, failed, flags) - failed < flags.len() && retries(max, failed, flags) + 1 < max
            ==> !flags[retries(max, failed, flags) - failed],
    decreases flags.len(),
{
    if flags.len() > 0 && failed + 1 < max && flags[0] {
        let rest = flags.drop_first();
        lemma_retries_stop(max, failed + 1, rest);
        assert forall|k: int| 0 <= k < retries(max, failed, flags) - failed implies #[trigger] flags[k] by {
            if k > 0 {
                assert(flags[k] == rest[k - 1]);
            }
        }
        let n = retries(max, failed, flags) - failed;
        if n < flags.len() && retries(max, failed, flags) + 1 < max {
            assert(flags[n] == rest[n - 1]);
        }
    }
}

}
