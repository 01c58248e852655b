//! Token usage reported by model calls.
use vstd::prelude::*;

verus! {

/// Token usage associated with a message or model call.
///
/// Reasoning and cached input tokens are optional provider details and are
/// normally already part of `output_tokens` and `input_tokens`. Consequently
/// [`Usage::total_tokens`] only adds the two core counters.
#[derive(Clone, Copy, Debug, PartialEq, Eq, Structural)]
pub struct Usage {
    /// The number of input tokens consumed.
    pub input_tokens: u64,
    /// The number of output tokens generated.
    pub output_tokens: u64,
    /// Reasoning tokens counted in `output_tokens`, when reported.
    pub reasoning_tokens: Option<u64>,
    /// Cached tokens counted in `input_tokens`, when reported.
    pub cached_input_tokens: Option<u64>,
}

/// A sum that stops at the largest counter.
pub open spec fn capped_sum(left: u64, right: u64) -> u64 {
    if left + right > u64::MAX {
        u64::MAX
    } else {
        (left + right) as u64
    }
}

/// The sum of two details, of which each may be missing.
pub open spec fn capped_option_sum(left: Option<u64>, right: Option<u64>) -> Option<u64> {
    match (left, right) {
        (None, None) => None,
        (Some(a), Some(b)) => Some(capped_sum(a, b)),
        (Some(a), None) => Some(a),
        (None, Some(b)) => Some(b),
    }
}

/// The usage of two calls together.
pub open spec fn usage_sum(left: Usage, right: Usage) -> Usage {
    Usage {
        input_tokens: capped_sum(left.input_tokens, right.input_tokens),
        output_tokens: capped_sum(left.output_tokens, right.output_tokens),
        reasoning_tokens: capped_option_sum(left.reasoning_tokens, right.reasoning_tokens),
        cached_input_tokens: capped_option_sum(left.cached_input_tokens, right.cached_input_tokens),
    }
}

/// The usage of no call.
pub open spec fn no_usage() -> Usage {
    Usage {
        input_tokens: 0,
        output_tokens: 0,
        reasoning_tokens: None,
        cached_input_tokens: None,
    }
}

impl Default for Usage {
    fn default() -> (usage: Usage)
        ensures
            usage == no_usage(),
    {
        Usage::new(0, 0)
    }
}

impl Usage {
    /// Usage with the two core counters only.
    pub fn new(input_tokens: u64, output_tokens: u64) -> (usage: Usage)
        ensures
            usage == (Usage {
                input_tokens,
                output_tokens,
                reasoning_tokens: None,
                cached_input_tokens: None,
            }),
    {
        Usage { input_tokens, output_tokens, reasoning_tokens: None, cached_input_tokens: None }
    }

    /// Adds a provider-reported reasoning-token detail.
    pub fn with_reasoning_tokens(self, reasoning_tokens: u64) -> (usage: Usage)
        ensures
            usage == (Usage { reasoning_tokens: Some(reasoning_tokens), ..self }),
    {
        Usage { reasoning_tokens: Some(reasoning_tokens), ..self }
    }

    /// Adds a provider-reported cached-input-token detail.
    pub fn with_cached_input_tokens(self, cached_input_tokens: u64) -> (usage: Usage)
        ensures
            usage == (Usage { cached_input_tokens: Some(cached_input_tokens), ..self }),
    {
        Usage { cached_input_tokens: Some(cached_input_tokens), ..self }
    }

    /// The sum of input and output tokens.
    pub fn total_tokens(self) -> (total: u64)
        ensures
            total == capped_sum(self.input_tokens, self.output_tokens),
    {
        self.input_tokens.saturating_add(self.output_tokens)
    }

    /// The usage of two calls together.
    pub fn plus(self, other: Usage) -> (sum: Usage)
        ensures
            sum == usage_sum(self, other),
    {
        Usage {
            input_tokens: self.input_tokens.saturating_add(other.input_tokens),
            output_tokens: self.output_tokens.saturating_add(other.output_tokens),
            reasoning_tokens: add_optional(self.reasoning_tokens, other.reasoning_tokens),
            cached_input_tokens: add_optional(self.cached_input_tokens, other.cached_input_tokens),
        }
    }
}

impl core::ops::Add for Usage {
    type Output = Usage;

    fn add(self, other: Usage) -> (sum: Usage)
        ensures
            sum == usage_sum(self, other),
    {
        self.plus(other)
    }
}

impl vstd::std_specs::ops::AddSpecImpl for Usage {
    open spec fn obeys_add_spec() -> bool {
        true
    }

    open spec fn add_req(self, other: Usage) -> bool {
        true
    }

    open spec fn add_spec(self, other: Usage) -> Usage {
        usage_sum(self, other)
    }
}

impl core::ops::AddAssign for Usage {
    fn add_assign(&mut self, other: Usage)
        ensures
            *final(self) == usage_sum(*old(self), other),
    {
        *self = self.plus(other);
    }
}

/// Adds two details, of which each may be missing.
pub fn add_optional(left: Option<u64>, right: Option<u64>) -> (sum: Option<u64>)
    ensures
        sum == capped_option_sum(left, right),
{
    match (left, right) {
        (None, None) => None,
        (Some(left), Some(right)) => Some(left.saturating_add(right)),
        (Some(value), None) => Some(value),
        (None, Some(value)) => Some(value),
    }
}

/// The order in which usage is added does not matter.
pub proof fn usage_sum_is_commutative(a: Usage, b: Usage)
    ensures
        usage_sum(a, b) == usage_sum(b, a),
{
}

/// How usage is grouped when it is added does not matter, even at the largest counter.
pub proof fn usage_sum_is_associative(a: Usage, b: Usage, c: Usage)
    ensures
        usage_sum(usage_sum(a, b), c) == usage_sum(a, usage_sum(b, c)),
{
}

/// Adding the usage of no call changes nothing.
pub proof fn no_usage_is_neutral(a: Usage)
    ensures
        usage_sum(a, no_usage()) == a,
        usage_sum(no_usage(), a) == a,
{
}

/// The details never count towards the total.
pub proof fn details_are_not_counted_twice(usage: Usage, reasoning: u64, cached: u64)
    ensures
        capped_sum(
            (Usage {
                reasoning_tokens: Some(reasoning),
                cached_input_tokens: Some(cached),
                ..usage
            }).input_tokens,
            (Usage {
                reasoning_tokens: Some(reasoning),
                cached_input_tokens: Some(cached),
                ..usage
            }).output_tokens,
        ) == capped_sum(usage.input_tokens, usage.output_tokens),
{
}

/// The counters of two calls are added, each to its own, and stop at the largest
/// number there is; a detail that only one call reports is kept.
pub proof fn counters_add_up(a: Usage, b: Usage)
    ensures
        a.input_tokens + b.input_tokens <= u64::MAX ==> usage_sum(a, b).input_tokens
            == a.input_tokens + b.input_tokens,
        a.input_tokens + b.input_tokens > u64::MAX ==> usage_sum(a, b).input_tokens == u64::MAX,
        a.output_tokens + b.output_tokens <= u64::MAX ==> usage_sum(a, b).output_tokens
            == a.output_tokens + b.output_tokens,
        a.output_tokens + b.output_tokens > u64::MAX ==> usage_sum(a, b).output_tokens
            == u64::MAX,
        a.reasoning_tokens is None ==> usage_sum(a, b).reasoning_tokens == b.reasoning_tokens,
        a.cached_input_tokens is None ==> usage_sum(a, b).cached_input_tokens
            == b.cached_input_tokens,
        a.reasoning_tokens is Some && b.reasoning_tokens is Some ==> usage_sum(
            a,
            b,
        ).reasoning_tokens is Some && (a.reasoning_tokens->Some_0 + b.reasoning_tokens->Some_0
            <= u64::MAX ==> usage_sum(a, b).reasoning_tokens->Some_0 == a.reasoning_tokens->Some_0
            + b.reasoning_tokens->Some_0),
        a.cached_input_tokens is Some && b.cached_input_tokens is Some ==> usage_sum(
            a,
            b,
        ).cached_input_tokens is Some && (a.cached_input_tokens->Some_0
            + b.cached_input_tokens->Some_0 <= u64::MAX ==> usage_sum(
            a,
            b,
        ).cached_input_tokens->Some_0 == a.cached_input_tokens->Some_0
            + b.cached_input_tokens->Some_0),
{
}

} // verus!
