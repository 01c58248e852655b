//! Retry policy and `Retry-After` handling.
use vstd::prelude::*;

use super::super::event::{ModelError, ModelErrorView};
use crate::text::{
    blank, decimal_text, lemma_decimal_round_trip, lemma_trim_around, parse_u64, parsed_u64, trim,
    trim_text,
};
use crate::time::{capped, Duration};

verus! {

/// Exponential-backoff policy for retryable model requests.
///
/// `max_retries` counts attempts after the initial request. Provider
/// `Retry-After` values are honored but capped by `max_delay`.
#[derive(Clone, Copy, Debug, PartialEq, Eq)]
pub struct RetryPolicy {
    pub(crate) max_retries: u32,
    pub(crate) initial_delay: Duration,
    pub(crate) max_delay: Duration,
}

/// What a retry policy holds, with its delays in nanoseconds.
#[verifier::ext_equal]
pub struct RetryView {
    pub max_retries: u32,
    pub initial_delay: nat,
    pub max_delay: nat,
}

impl View for RetryPolicy {
    type V = RetryView;

    open(crate) spec fn view(&self) -> RetryView {
        RetryView {
            max_retries: self.max_retries,
            initial_delay: self.initial_delay@,
            max_delay: self.max_delay@,
        }
    }
}

/// A policy with default delays.
pub open spec fn default_delays(max_retries: u32) -> RetryView {
    RetryView { max_retries, initial_delay: 250_000_000, max_delay: 10_000_000_000 }
}

/// The factor by which the first delay has grown before a retry: a power of two
/// as long as it fits.
pub open spec fn backoff_factor(retry_number: u32) -> nat {
    if retry_number < 32 {
        vstd::arithmetic::power2::pow2(retry_number as nat)
    } else {
        u32::MAX as nat
    }
}

/// The delay before a retry: the provider's, or one that grows; never more than
/// the policy's longest.
pub open spec fn retry_delay(
    policy: RetryView,
    retry_number: u32,
    retry_after: Option<nat>,
) -> nat {
    let wanted = match retry_after {
        Some(delay) => delay,
        None => capped(policy.initial_delay * backoff_factor(retry_number)),
    };
    if wanted <= policy.max_delay {
        wanted
    } else {
        policy.max_delay
    }
}

/// Whether a failure is worth another attempt after a number of retries.
pub open spec fn retries_left(policy: RetryView, retries: u32, error: ModelErrorView) -> bool {
    retries < policy.max_retries && error.retryable
}

/// An optional span in nanoseconds.
pub open spec fn span_option(span: Option<Duration>) -> Option<nat> {
    match span {
        Some(span) => Some(span@),
        None => None,
    }
}

impl Default for RetryPolicy {
    fn default() -> (policy: RetryPolicy)
        ensures
            policy@ == default_delays(2),
    {
        RetryPolicy::new(2)
    }
}

impl RetryPolicy {
    /// Creates a policy with the requested number of retries.
    pub fn new(max_retries: u32) -> (policy: RetryPolicy)
        ensures
            policy@ == default_delays(max_retries),
    {
        RetryPolicy {
            max_retries,
            initial_delay: Duration::from_millis(250),
            max_delay: Duration::from_secs(10),
        }
    }

    /// Disables automatic retries.
    pub fn disabled() -> (policy: RetryPolicy)
        ensures
            policy@ == default_delays(0),
    {
        RetryPolicy::new(0)
    }

    /// Sets the delay before the first retry.
    pub fn with_initial_delay(self, initial_delay: Duration) -> (policy: RetryPolicy)
        ensures
            policy@ == (RetryView { initial_delay: initial_delay@, ..self@ }),
    {
        RetryPolicy { initial_delay, ..self }
    }

    /// Sets the maximum delay between attempts.
    pub fn with_max_delay(self, max_delay: Duration) -> (policy: RetryPolicy)
        ensures
            policy@ == (RetryView { max_delay: max_delay@, ..self@ }),
    {
        RetryPolicy { max_delay, ..self }
    }

    /// The maximum number of attempts after the initial request.
    pub fn max_retries(self) -> (max_retries: u32)
        ensures
            max_retries == self@.max_retries,
    {
        self.max_retries
    }

    /// The delay before the first retry.
    pub fn initial_delay(self) -> (initial_delay: Duration)
        ensures
            initial_delay@ == self@.initial_delay,
    {
        self.initial_delay
    }

    /// The maximum delay between attempts.
    pub fn max_delay(self) -> (max_delay: Duration)
        ensures
            max_delay@ == self@.max_delay,
    {
        self.max_delay
    }

    /// Whether a failure is worth another attempt after a number of retries.
    pub fn can_retry(self, retries: u32, error: &ModelError) -> (result: bool)
        ensures
            result == retries_left(self@, retries, error@),
    {
        retries < self.max_retries && error.retryable
    }

    /// The delay before a retry.
    pub fn delay(self, retry_number: u32, retry_after: Option<Duration>) -> (delay: Duration)
        ensures
            delay@ == retry_delay(self@, retry_number, span_option(retry_after)),
    {
        let exponential = self.initial_delay.saturating_mul(backoff(retry_number));
        let wanted = match retry_after {
            Some(delay) => delay,
            None => exponential,
        };
        wanted.min(self.max_delay)
    }
}

/// The factor by which the first delay has grown before a retry.
fn backoff(retry_number: u32) -> (factor: u32)
    ensures
        factor == backoff_factor(retry_number),
{
    if retry_number >= 32 {
        return u32::MAX;
    }
    let mut factor: u64 = 1;
    let mut i: u32 = 0;
    proof {
        vstd::arithmetic::power2::lemma2_to64();
    }
    while i < retry_number
        invariant
            i <= retry_number < 32,
            factor == vstd::arithmetic::power2::pow2(i as nat),
        decreases retry_number - i,
    {
        proof {
            vstd::arithmetic::power2::lemma_pow2_unfold((i + 1) as nat);
            vstd::arithmetic::power2::lemma2_to64();
            if i < 31 {
                vstd::arithmetic::power2::lemma_pow2_strictly_increases(i as nat, 31);
            }
        }
        factor = factor * 2;
        i += 1;
    }
    proof {
        vstd::arithmetic::power2::lemma2_to64();
        if retry_number < 31 {
            vstd::arithmetic::power2::lemma_pow2_strictly_increases(retry_number as nat, 31);
        }
    }
    factor as u32
}

/// The seconds since the Unix epoch that `httpdate` reads in an HTTP date.
pub uninterp spec fn http_date_seconds(text: Seq<char>) -> Option<u64>;

/// `httpdate::parse_http_date`: the time of an HTTP date, which is never before
/// the Unix epoch. The result depends on the text alone.
#[verifier::external_body]
fn parse_http_date(text: &str) -> (seconds: Option<u64>)
    ensures
        seconds == http_date_seconds(text@),
{
    let time = httpdate::parse_http_date(text).ok()?;
    Some(time.duration_since(std::time::UNIX_EPOCH).ok()?.as_secs())
}

/// What a `Retry-After` value asks for at a time, in nanoseconds: a number of
/// seconds, or the span until an HTTP date.
pub open spec fn retry_after_span(value: Seq<char>, now: nat) -> Option<nat> {
    match parsed_u64(trim_text(value)) {
        Some(seconds) => Some((seconds * 1_000_000_000) as nat),
        None => match http_date_seconds(value) {
            Some(seconds) => Some(span_until(seconds, now)),
            None => None,
        },
    }
}

/// The span until a time in seconds, or no time where it has passed.
pub open spec fn span_until(seconds: u64, now: nat) -> nat {
    let time = (seconds * 1_000_000_000) as nat;
    if time >= now {
        (time - now) as nat
    } else {
        0
    }
}

/// The span until a date that was read, if one was.
pub fn until_date(date: Option<u64>, now: Duration) -> (span: Option<Duration>)
    ensures
        span_option(span) == match date {
            Some(seconds) => Some(span_until(seconds, now@)),
            None => None,
        },
{
    match date {
        Some(seconds) => Some(Duration::from_secs(seconds).since(now)),
        None => None,
    }
}

/// Reads a `Retry-After` value at a time.
pub fn parse_retry_after(value: &str, now: Duration) -> (span: Option<Duration>)
    ensures
        span_option(span) == retry_after_span(value@, now@),
{
    match parse_u64(trim(value).as_str()) {
        Some(seconds) => Some(Duration::from_secs(seconds)),
        None => until_date(parse_http_date(value), now),
    }
}

/// No delay is longer than the policy's longest, whatever the provider asks for.
pub proof fn delays_are_capped(policy: RetryView, retry_number: u32, retry_after: Option<nat>)
    ensures
        retry_delay(policy, retry_number, retry_after) <= policy.max_delay,
{
}

/// Without a provider's wish, later delays are never shorter.
pub proof fn delays_never_shrink(policy: RetryView, earlier: u32, later: u32)
    requires
        earlier <= later,
    ensures
        retry_delay(policy, earlier, None) <= retry_delay(policy, later, None),
{
    vstd::arithmetic::power2::lemma2_to64();
    assert(backoff_factor(earlier) <= backoff_factor(later)) by {
        if later < 32 {
            if earlier < later {
                vstd::arithmetic::power2::lemma_pow2_strictly_increases(earlier as nat, later as nat);
            }
        } else if earlier < 32 {
            if earlier < 31 {
                vstd::arithmetic::power2::lemma_pow2_strictly_increases(earlier as nat, 31);
            }
        }
    }
    assert(policy.initial_delay * backoff_factor(earlier) <= policy.initial_delay * backoff_factor(
        later,
    )) by (nonlinear_arith)
        requires
            backoff_factor(earlier) <= backoff_factor(later),
    ;
}

/// A disabled policy never retries, and no policy retries more often than it says.
pub proof fn retries_are_bounded(policy: RetryView, retries: u32, error: ModelErrorView)
    ensures
        policy.max_retries == 0 ==> !retries_left(policy, retries, error),
        retries_left(policy, retries, error) ==> retries + 1 <= policy.max_retries,
{
}

/// What a provider asks for is honored exactly up to the policy's longest delay, and
/// cut to that delay beyond it, whichever retry it is.
pub proof fn provider_wishes_are_honored(policy: RetryView, retry_number: u32, wish: nat)
    ensures
        wish <= policy.max_delay ==> retry_delay(policy, retry_number, Some(wish)) == wish,
        wish > policy.max_delay ==> retry_delay(policy, retry_number, Some(wish))
            == policy.max_delay,
{
}

/// Without a provider's wish the first delay is the policy's, and each delay is twice
/// the one before; both up to the policy's longest.
pub proof fn delays_double(policy: RetryView, retry_number: u32)
    requires
        policy.max_delay <= crate::time::MAX_NANOS,
        retry_number < 31,
    ensures
        policy.initial_delay <= policy.max_delay ==> retry_delay(policy, 0, None)
            == policy.initial_delay,
        policy.initial_delay > policy.max_delay ==> retry_delay(policy, 0, None)
            == policy.max_delay,
        ({
            let earlier = retry_delay(policy, retry_number, None);
            let later = retry_delay(policy, (retry_number + 1) as u32, None);
            if 2 * earlier <= policy.max_delay {
                later == 2 * earlier
            } else {
                later == policy.max_delay
            }
        }),
{
    vstd::arithmetic::power2::lemma2_to64();
    vstd::arithmetic::power2::lemma_pow2_unfold((retry_number + 1) as nat);
    let factor = vstd::arithmetic::power2::pow2(retry_number as nat);
    assert(policy.initial_delay * (2 * factor) == 2 * (policy.initial_delay * factor))
        by (nonlinear_arith);
    assert(policy.initial_delay * 1 == policy.initial_delay);
}

/// A failure is tried again exactly where it is worth it and a retry is left.
pub proof fn retries_are_used(policy: RetryView, retries: u32, error: ModelErrorView)
    ensures
        error.retryable && retries < policy.max_retries ==> retries_left(policy, retries, error),
        !error.retryable || retries >= policy.max_retries ==> !retries_left(
            policy,
            retries,
            error,
        ),
{
}

/// A number of seconds is read as that many seconds, whatever white space stands
/// around it and whatever the time is.
pub proof fn seconds_are_read_as_seconds(
    before: Seq<char>,
    seconds: u64,
    after: Seq<char>,
    now: nat,
)
    requires
        blank(before),
        blank(after),
    ensures
        retry_after_span(before + decimal_text(seconds as nat) + after, now) == Some(
            (seconds * 1_000_000_000) as nat,
        ),
{
    lemma_decimal_round_trip(seconds as nat);
    let digits = decimal_text(seconds as nat);
    assert(digits[0] >= '0' && digits[0] <= '9');
    assert(digits.last() >= '0' && digits.last() <= '9');
    lemma_trim_around(before, digits, after);
}

/// A date is read as the span until it: all of it where the date is still to come,
/// and none where it has passed.
pub proof fn dates_are_read_as_spans(value: Seq<char>, date: u64, now: nat)
    requires
        parsed_u64(trim_text(value)) is None,
        http_date_seconds(value) == Some(date),
    ensures
        retry_after_span(value, now) matches Some(span) && (if date * 1_000_000_000 >= now {
            now + span == date * 1_000_000_000
        } else {
            span == 0
        }),
{
}

} // verus!
