//! The shared HTTP transport policy: its validation, which requests may be
//! retried, the backoff schedule, `Retry-After` handling, and the decision
//! taken after every attempt of a request.

use vstd::prelude::*;

use crate::error::PlankaError;
use crate::text::{ascii_upper_seq, push_str, str_eq, to_ascii_uppercase};

verus! {

/// Upper bound on a server-requested `Retry-After` delay, in nanoseconds (30 s).
pub const MAX_RETRY_AFTER_NANOS: u64 = 30_000_000_000;

/// Shared HTTP transport policy for the whole client stack.
#[derive(Debug, Clone, PartialEq, Eq)]
pub struct TransportPolicy {
    /// Maximum number of in-flight HTTP requests per client instance.
    pub max_in_flight: usize,
    /// Optional sustained request rate limit, in requests per second.
    pub rate_limit_per_second: Option<u32>,
    /// Optional burst size used with the rate limiter.
    pub burst_size: Option<u32>,
    /// Number of retry attempts after the initial request.
    pub retry_attempts: u32,
    /// Base retry delay in milliseconds.
    pub retry_base_delay_ms: u64,
    /// Maximum retry delay in milliseconds.
    pub retry_max_delay_ms: u64,
    /// Whether retry delays include jitter.
    pub retry_jitter: bool,
    /// Restrict automatic retries to safe, idempotent methods.
    pub retry_safe_methods_only: bool,
}

impl Default for TransportPolicy {
    fn default() -> (r: Self)
        ensures
            r.max_in_flight == 8,
            r.rate_limit_per_second == Some(10u32),
            r.burst_size == Some(10u32),
            r.retry_attempts == 2,
            r.retry_base_delay_ms == 250,
            r.retry_max_delay_ms == 2000,
            r.retry_jitter,
            r.retry_safe_methods_only,
    {
        TransportPolicy {
            max_in_flight: 8,
            rate_limit_per_second: Some(10),
            burst_size: Some(10),
            retry_attempts: 2,
            retry_base_delay_ms: 250,
            retry_max_delay_ms: 2_000,
            retry_jitter: true,
            retry_safe_methods_only: true,
        }
    }
}

/// Why a policy is rejected, checked in this order; `None` for a valid policy.
/// The pair is the offending field and the message.
pub open spec fn spec_policy_problem(p: TransportPolicy) -> Option<(Seq<char>, Seq<char>)> {
    if p.max_in_flight == 0 {
        Some(("transport.max_in_flight"@, "must be at least 1"@))
    } else if p.rate_limit_per_second == Some(0u32) {
        Some(("transport.rate_limit_per_second"@, "must be at least 1 when set"@))
    } else if p.burst_size == Some(0u32) {
        Some(("transport.burst_size"@, "must be at least 1 when set"@))
    } else if p.burst_size is Some && p.rate_limit_per_second is None {
        Some(("transport.burst_size"@, "requires rate_limit_per_second to also be set"@))
    } else if p.retry_base_delay_ms == 0 {
        Some(("transport.retry_base_delay_ms"@, "must be at least 1"@))
    } else if p.retry_max_delay_ms < p.retry_base_delay_ms {
        Some(("transport.retry_max_delay_ms"@, "must be greater than or equal to retry_base_delay_ms"@))
    } else {
        None
    }
}

/// A policy that passes validation.
pub open spec fn spec_policy_valid(p: TransportPolicy) -> bool {
    spec_policy_problem(p) is None
}

/// Methods that may be retried when retries are restricted to safe methods.
pub open spec fn spec_is_safe_method(method: Seq<char>) -> bool {
    let m = ascii_upper_seq(method);
    m == "GET"@ || m == "HEAD"@ || m == "OPTIONS"@
}

/// Whether automatic retries are allowed at all for a method.
pub open spec fn spec_retries_allowed(p: TransportPolicy, method: Seq<char>) -> bool {
    p.retry_attempts != 0 && (!p.retry_safe_methods_only || spec_is_safe_method(method))
}

/// Statuses worth retrying: 429, 502, 503, 504.
pub open spec fn spec_retryable_status(status: u16) -> bool {
    status == 429 || status == 502 || status == 503 || status == 504
}

/// Two to the power `n`.
pub open spec fn two_pow(n: nat) -> nat
    decreases n,
{
    if n == 0 { 1 } else { 2 * two_pow((n - 1) as nat) }
}

/// A value clamped to the `u64` range, as `saturating_*` operations do.
pub open spec fn saturate(x: int) -> int {
    if x > u64::MAX { u64::MAX as int } else { x }
}

/// The capped exponential backoff for a retry, before jitter:
/// `min(base * 2^(n-1), max)` with saturating arithmetic (`n - 1` saturates at 0).
pub open spec fn spec_capped_delay(p: TransportPolicy, retry_number: u32) -> int {
    let exponent: nat = if retry_number == 0 { 0 } else { (retry_number - 1) as nat };
    let exponential = saturate(p.retry_base_delay_ms * saturate(two_pow(exponent) as int));
    if exponential < p.retry_max_delay_ms { exponential } else { p.retry_max_delay_ms as int }
}

/// The backoff delay in milliseconds for a given clock reading: without
/// jitter the capped delay; with jitter a value in `[capped/2, capped]`
/// chosen by the sub-second nanoseconds of the clock.
pub open spec fn spec_retry_delay(p: TransportPolicy, retry_number: u32, nanos: u32) -> int {
    let capped = spec_capped_delay(p, retry_number);
    if p.retry_jitter {
        let lower = capped / 2;
        let spread = capped - lower;
        lower + (nanos as int) % (spread + 1)
    } else {
        capped
    }
}

proof fn lemma_two_pow_monotone(a: nat, b: nat)
    requires
        a <= b,
    ensures
        two_pow(a) <= two_pow(b),
        two_pow(a) >= 1,
    decreases b,
{
    if b > a {
        lemma_two_pow_monotone(a, (b - 1) as nat);
    } else if a > 0 {
        lemma_two_pow_monotone((a - 1) as nat, (a - 1) as nat);
    }
}

/// `2^n`, saturating at `u64::MAX`.
fn saturating_two_pow(n: u32) -> (r: u64)
    ensures
        r == saturate(two_pow(n as nat) as int),
{
    let mut factor: u64 = 1;
    let mut k: u32 = 0;
    while k < n
        invariant
            k <= n,
            factor == saturate(two_pow(k as nat) as int),
        decreases n - k,
    {
        if factor == u64::MAX {
            proof {
                assert forall|m: nat| k <= m implies saturate(two_pow(m) as int) == u64::MAX by {
                    lemma_two_pow_monotone(k as nat, m);
                }
            }
            return factor;
        }
        assert(two_pow((k + 1) as nat) == 2 * two_pow(k as nat));
        factor = match factor.checked_mul(2) {
            Some(v) => v,
            None => u64::MAX,
        };
        k = k + 1;
    }
    factor
}

/// Calls the system clock for the sub-second nanoseconds of the current
/// time, the jitter source; the value is only known to be below 10^9.
#[verifier::external_body]
fn clock_subsec_nanos() -> (r: u32)
    ensures
        r < 1_000_000_000,
{
    std::time::SystemTime::now().duration_since(std::time::UNIX_EPOCH).unwrap_or_default().subsec_nanos()
}

/// Calls the system clock for the nanoseconds elapsed since the Unix epoch
/// (zero when the clock reads earlier than the epoch).
#[verifier::external_body]
fn clock_unix_nanos() -> u128 {
    std::time::SystemTime::now().duration_since(std::time::UNIX_EPOCH).unwrap_or_default().as_nanos()
}

/// What `httpdate::parse_http_date` yields for a header value: the seconds
/// since the Unix epoch of the date it denotes, or `None` when it is not an
/// HTTP date.
pub uninterp spec fn spec_http_date_secs(raw: Seq<char>) -> Option<u64>;

/// Calls `httpdate::parse_http_date` and expresses the time it returns as
/// whole seconds since the Unix epoch (HTTP dates carry no fractions).
#[verifier::external_body]
fn http_date_secs(raw: &str) -> (r: Option<u64>)
    ensures
        r == spec_http_date_secs(raw@),
{
    match httpdate::parse_http_date(raw) {
        Ok(t) => match t.duration_since(std::time::UNIX_EPOCH) {
            Ok(d) => Some(d.as_secs()),
            Err(_) => None,
        },
        Err(_) => None,
    }
}

/// The value of an ASCII decimal digit.
pub open spec fn digit_value(c: char) -> int {
    (c as int) - ('0' as int)
}

/// Whether a character is an ASCII decimal digit.
pub open spec fn is_digit(c: char) -> bool {
    '0' <= c && c <= '9'
}

/// The number denoted by a run of decimal digits.
pub open spec fn digits_value(s: Seq<char>) -> nat
    decreases s.len(),
{
    if s.len() == 0 {
        0
    } else {
        (digits_value(s.drop_last()) * 10 + digit_value(s.last())) as nat
    }
}

/// Every character is an ASCII decimal digit.
pub open spec fn all_digits(s: Seq<char>) -> bool {
    forall|i: int| 0 <= i < s.len() ==> is_digit(#[trigger] s[i])
}

/// The text after an optional leading `+`.
pub open spec fn unsigned_part(s: Seq<char>) -> Seq<char> {
    if s.len() > 0 && s[0] == '+' { s.drop_first() } else { s }
}

/// What `str::parse::<u64>` accepts: an optional `+` followed by at least one
/// ASCII digit, denoting a value that fits in `u64`.
pub open spec fn spec_parse_u64(s: Seq<char>) -> Option<u64> {
    let digits = unsigned_part(s);
    if digits.len() > 0 && all_digits(digits) && digits_value(digits) <= u64::MAX {
        Some(digits_value(digits) as u64)
    } else {
        None
    }
}

proof fn lemma_digits_value_grows(s: Seq<char>)
    requires
        forall|i: int| 0 <= i < s.len() ==> is_digit(#[trigger] s[i]),
    ensures
        forall|k: int| 0 <= k <= s.len() ==> digits_value(#[trigger] s.subrange(0, k)) <= digits_value(s),
    decreases s.len(),
{
    if s.len() > 0 {
        lemma_digits_value_grows(s.drop_last());
        assert forall|k: int| 0 <= k <= s.len() implies digits_value(#[trigger] s.subrange(0, k))
            <= digits_value(s) by {
            if k < s.len() {
                assert(s.subrange(0, k) =~= s.drop_last().subrange(0, k));
            } else {
                assert(s.subrange(0, k) =~= s);
            }
        }
    }
}

proof fn lemma_digits_overflow(digits: Seq<char>, k: int)
    requires
        0 < k <= digits.len(),
        digits_value(digits.subrange(0, k)) > u64::MAX,
    ensures
        !(all_digits(digits) && digits_value(digits) <= u64::MAX),
{
    if all_digits(digits) {
        lemma_digits_value_grows(digits);
        assert(digits_value(digits.subrange(0, k)) <= digits_value(digits));
    }
}

/// Parses an unsigned decimal integer as `str::parse::<u64>` does.
pub fn parse_u64(s: &str) -> (r: Option<u64>)
    ensures
        r == spec_parse_u64(s@),
{
    let cs = crate::text::chars_of(s);
    let start: usize = if cs.len() > 0 && cs[0] == '+' { 1 } else { 0 };
    let ghost digits = unsigned_part(s@);
    assert(digits =~= cs@.subrange(start as int, cs@.len() as int));
    if start >= cs.len() {
        return None;
    }
    let mut value: u64 = 0;
    let mut i: usize = start;
    while i < cs.len()
        invariant
            start <= i <= cs.len(),
            cs@ == s@,
            digits == unsigned_part(s@),
            digits =~= cs@.subrange(start as int, cs@.len() as int),
            forall|j: int| 0 <= j < i - start ==> is_digit(#[trigger] digits[j]),
            value == digits_value(digits.subrange(0, i - start)),
        decreases cs.len() - i,
    {
        let c = cs[i];
        if !('0' <= c && c <= '9') {
            assert(digits[i - start] == c);
            assert(!is_digit(digits[i - start]));
            assert(!all_digits(digits));
            return None;
        }
        let d = (c as u32 - '0' as u32) as u64;
        assert(digits.subrange(0, i + 1 - start).drop_last() =~= digits.subrange(0, i - start));
        assert(digits.subrange(0, i + 1 - start).last() == c);
        assert(d == digit_value(c));
        assert(digits_value(digits.subrange(0, i + 1 - start)) == value * 10 + d);
        match value.checked_mul(10) {
            Some(v) => match v.checked_add(d) {
                Some(w) => {
                    value = w;
                },
                None => {
                    proof {
                        lemma_digits_overflow(digits, (i + 1 - start) as int);
                    }
                    return None;
                },
            },
            None => {
                proof {
                    lemma_digits_overflow(digits, (i + 1 - start) as int);
                }
                return None;
            },
        }
        i = i + 1;
    }
    assert(digits.subrange(0, cs.len() - start) =~= digits);
    Some(value)
}


impl TransportPolicy {
    /// Validates the internal consistency of the policy before runtime state
    /// is built from it; the first violated rule is reported as
    /// `InvalidOptionValue` naming the offending field.
    pub fn validate(&self) -> (r: Result<(), PlankaError>)
        ensures
            r is Ok <==> spec_policy_valid(*self),
            r matches Err(e) ==> (e matches PlankaError::InvalidOptionValue { field, message } && (field@,
                message@) == spec_policy_problem(*self)->0),
    {
        if self.max_in_flight == 0 {
            return Err(invalid_option("transport.max_in_flight", "must be at least 1"));
        }
        if let Some(rate) = self.rate_limit_per_second {
            if rate == 0 {
                return Err(invalid_option("transport.rate_limit_per_second", "must be at least 1 when set"));
            }
        }
        if let Some(burst) = self.burst_size {
            if burst == 0 {
                return Err(invalid_option("transport.burst_size", "must be at least 1 when set"));
            }
        }
        if self.burst_size.is_some() && self.rate_limit_per_second.is_none() {
            return Err(
                invalid_option("transport.burst_size", "requires rate_limit_per_second to also be set"),
            );
        }
        if self.retry_base_delay_ms == 0 {
            return Err(invalid_option("transport.retry_base_delay_ms", "must be at least 1"));
        }
        if self.retry_max_delay_ms < self.retry_base_delay_ms {
            return Err(
                invalid_option(
                    "transport.retry_max_delay_ms",
                    "must be greater than or equal to retry_base_delay_ms",
                ),
            );
        }
        Ok(())
    }

    /// Whether automatic retries are allowed for `method`: never when no
    /// retry attempts are configured; otherwise for every method, or only
    /// GET, HEAD and OPTIONS (in any ASCII case) when restricted to safe
    /// methods.
    pub fn retries_allowed_for_method(&self, method: &str) -> (r: bool)
        ensures
            r == spec_retries_allowed(*self, method@),
    {
        if self.retry_attempts == 0 {
            return false;
        }
        if !self.retry_safe_methods_only {
            return true;
        }
        let upper = to_ascii_uppercase(method);
        let u = upper.as_str();
        str_eq(u, "GET") || str_eq(u, "HEAD") || str_eq(u, "OPTIONS")
    }

    /// Whether a response status should be retried for `method`.
    pub fn should_retry_status(&self, method: &str, status: u16) -> (r: bool)
        ensures
            r == (spec_retries_allowed(*self, method@) && spec_retryable_status(status)),
    {
        self.retries_allowed_for_method(method) && (status == 429 || status == 502 || status == 503
            || status == 504)
    }

    /// Whether a failed send should be retried for `method`, given whether
    /// the failure was a timeout and whether it was a connection failure.
    pub fn should_retry_failure(&self, method: &str, timed_out: bool, connect_failed: bool) -> (r: bool)
        ensures
            r == (spec_retries_allowed(*self, method@) && (timed_out || connect_failed)),
    {
        self.retries_allowed_for_method(method) && (timed_out || connect_failed)
    }

    /// Whether a transport error should be retried for `method`; the error's
    /// kind is read through `reqwest`, so only the method side is stated.
    pub fn should_retry_error(&self, method: &str, error: &reqwest::Error) -> (r: bool)
        ensures
            r ==> spec_retries_allowed(*self, method@),
    {
        self.should_retry_failure(method, error_is_timeout(error), error_is_connect(error))
    }

    /// The backoff delay in milliseconds for retry number `retry_number`,
    /// given the sub-second nanoseconds of the clock as the jitter source.
    pub fn retry_delay_ms_with(&self, retry_number: u32, nanos: u32) -> (r: u64)
        ensures
            r == spec_retry_delay(*self, retry_number, nanos),
    {
        let exponent = if retry_number == 0 { 0 } else { retry_number - 1 };
        let factor = saturating_two_pow(exponent);
        let exponential = match self.retry_base_delay_ms.checked_mul(factor) {
            Some(v) => v,
            None => u64::MAX,
        };
        let capped = if exponential < self.retry_max_delay_ms {
            exponential
        } else {
            self.retry_max_delay_ms
        };
        if self.retry_jitter {
            let lower = capped / 2;
            let spread = capped - lower;
            lower + (nanos as u64) % (spread + 1)
        } else {
            capped
        }
    }

    /// The backoff delay in milliseconds for retry number `retry_number`,
    /// reading the clock for jitter: the capped exponential delay, or with
    /// jitter a value between half of it and all of it.
    pub fn retry_delay(&self, retry_number: u32) -> (r: u64)
        ensures
            exists|nanos: u32| nanos < 1_000_000_000 && r == spec_retry_delay(*self, retry_number, nanos),
            !self.retry_jitter ==> r == spec_capped_delay(*self, retry_number),
            self.retry_jitter ==> spec_capped_delay(*self, retry_number) / 2 <= r <= spec_capped_delay(
                *self,
                retry_number,
            ),
    {
        let nanos = clock_subsec_nanos();
        self.retry_delay_ms_with(retry_number, nanos)
    }

    /// The rate limiter a runtime built from this policy uses: its rate and
    /// burst size, the burst defaulting to the rate; `None` without a rate.
    pub fn rate_limiter_settings(&self) -> (r: Option<(u32, u32)>)
        ensures
            match self.rate_limit_per_second {
                None => r is None,
                Some(rate) => r == Some(
                    (
                        rate,
                        match self.burst_size {
                            Some(b) => b,
                            None => rate,
                        },
                    ),
                ),
            },
    {
        match self.rate_limit_per_second {
            None => None,
            Some(rate) => {
                let burst = match self.burst_size {
                    Some(b) => b,
                    None => rate,
                };
                Some((rate, burst))
            },
        }
    }
}

fn invalid_option(field: &str, message: &str) -> (r: PlankaError)
    ensures
        r matches PlankaError::InvalidOptionValue { field: f, message: m } && f@ == field@ && m@ == message@,
{
    PlankaError::InvalidOptionValue { field: field.to_owned(), message: message.to_owned() }
}

/// Calls `reqwest::Error::is_timeout`.
#[verifier::external_body]
fn error_is_timeout(e: &reqwest::Error) -> bool {
    e.is_timeout()
}

/// Calls `reqwest::Error::is_connect`.
#[verifier::external_body]
fn error_is_connect(e: &reqwest::Error) -> bool {
    e.is_connect()
}

/// The delay a `Retry-After` header value asks for, in nanoseconds, given
/// the current time in nanoseconds since the Unix epoch: a whole number of
/// seconds, or else an HTTP date, measured from now (`None` when the date
/// has passed or the value is neither); capped at 30 seconds.
pub open spec fn spec_retry_after(raw: Seq<char>, now_nanos: u128) -> Option<u64> {
    let requested: Option<int> = match spec_parse_u64(raw) {
        Some(secs) => Some(secs * 1_000_000_000),
        None => match spec_http_date_secs(raw) {
            Some(secs) => if secs * 1_000_000_000 >= now_nanos {
                Some(secs * 1_000_000_000 - now_nanos)
            } else {
                None
            },
            None => None,
        },
    };
    match requested {
        Some(n) => Some(if n < MAX_RETRY_AFTER_NANOS { n as u64 } else { MAX_RETRY_AFTER_NANOS }),
        None => None,
    }
}

/// The delay requested by a `Retry-After` header value at a given time.
pub fn retry_after_at(raw: &str, now_nanos: u128) -> (r: Option<u64>)
    ensures
        r == spec_retry_after(raw@, now_nanos),
{
    let requested: Option<u128> = match parse_u64(raw) {
        Some(secs) => Some(secs as u128 * 1_000_000_000),
        None => match http_date_secs(raw) {
            Some(secs) => {
                let deadline = secs as u128 * 1_000_000_000;
                if deadline >= now_nanos {
                    Some(deadline - now_nanos)
                } else {
                    None
                }
            },
            None => None,
        },
    };
    match requested {
        Some(n) => Some(if n < MAX_RETRY_AFTER_NANOS as u128 { n as u64 } else { MAX_RETRY_AFTER_NANOS }),
        None => None,
    }
}

/// The delay requested by a response's `Retry-After` header value (absent
/// when the response has none), measured against the clock.
pub fn retry_after_delay(raw: Option<&str>) -> (r: Option<u64>)
    ensures
        raw is None ==> r is None,
        raw matches Some(v) ==> exists|now: u128| r == spec_retry_after(v@, now),
        r matches Some(n) ==> n <= MAX_RETRY_AFTER_NANOS,
{
    match raw {
        None => None,
        Some(v) => {
            let now = clock_unix_nanos();
            retry_after_at(v, now)
        },
    }
}


/// What one attempt of a request came back with.
#[derive(Debug, Clone, PartialEq, Eq)]
pub enum AttemptOutcome {
    /// A response: its status, and the delay in nanoseconds its
    /// `Retry-After` header asked for, if any.
    Response { status: u16, retry_after_nanos: Option<u64> },
    /// The send failed: whether it timed out, whether connecting failed.
    Failure { timed_out: bool, connect_failed: bool },
}

/// Where the delay before a retry comes from.
#[derive(Debug, Clone, Copy, PartialEq, Eq)]
pub enum RetrySource {
    RetryAfter,
    Backoff,
    Transport,
}

/// The decision to retry a request: the number of the retry, how long to
/// wait before it (nanoseconds), and where that delay comes from.
#[derive(Debug, Clone, Copy, PartialEq, Eq)]
pub struct RetryPlan {
    pub retry_number: u32,
    pub delay_nanos: u128,
    pub source: RetrySource,
}

/// Whether an outcome is worth retrying for `method` under the policy.
pub open spec fn spec_outcome_retryable(p: TransportPolicy, method: Seq<char>, outcome: AttemptOutcome) -> bool {
    match outcome {
        AttemptOutcome::Response { status, .. } => spec_retries_allowed(p, method) && spec_retryable_status(status),
        AttemptOutcome::Failure { timed_out, connect_failed } => spec_retries_allowed(p, method) && (timed_out
            || connect_failed),
    }
}

/// The decision taken after an attempt: retry while retries remain and the
/// outcome is retryable, waiting for the server-requested delay when the
/// response carried one and for the backoff of the next retry otherwise.
pub open spec fn spec_plan_retry(
    p: TransportPolicy,
    method: Seq<char>,
    retry_number: u32,
    outcome: AttemptOutcome,
    jitter_nanos: u32,
) -> Option<RetryPlan> {
    if retry_number < p.retry_attempts && spec_outcome_retryable(p, method, outcome) {
        let next = (retry_number + 1) as u32;
        let backoff = (spec_retry_delay(p, next, jitter_nanos) * 1_000_000) as u128;
        Some(
            match outcome {
                AttemptOutcome::Response { retry_after_nanos, .. } => match retry_after_nanos {
                    Some(n) => RetryPlan { retry_number: next, delay_nanos: n as u128, source: RetrySource::RetryAfter },
                    None => RetryPlan { retry_number: next, delay_nanos: backoff, source: RetrySource::Backoff },
                },
                AttemptOutcome::Failure { .. } => RetryPlan {
                    retry_number: next,
                    delay_nanos: backoff,
                    source: RetrySource::Transport,
                },
            },
        )
    } else {
        None
    }
}

impl TransportPolicy {
    /// Decides what follows attempt number `retry_number` (0 for the first
    /// send) of a request, given the outcome and the clock's sub-second
    /// nanoseconds as the jitter source: `None` to hand the outcome to the
    /// caller, or the retry to make.
    pub fn plan_retry(&self, method: &str, retry_number: u32, outcome: &AttemptOutcome, jitter_nanos: u32) -> (r:
        Option<RetryPlan>)
        ensures
            r == spec_plan_retry(*self, method@, retry_number, *outcome, jitter_nanos),
            r matches Some(plan) ==> retry_number < self.retry_attempts && plan.retry_number == retry_number + 1,
    {
        if retry_number >= self.retry_attempts {
            return None;
        }
        let retryable = match outcome {
            AttemptOutcome::Response { status, .. } => self.should_retry_status(method, *status),
            AttemptOutcome::Failure { timed_out, connect_failed } => self.should_retry_failure(
                method,
                *timed_out,
                *connect_failed,
            ),
        };
        if !retryable {
            return None;
        }
        let next = retry_number + 1;
        let backoff = self.retry_delay_ms_with(next, jitter_nanos) as u128 * 1_000_000;
        let plan = match outcome {
            AttemptOutcome::Response { retry_after_nanos, .. } => match retry_after_nanos {
                Some(n) => RetryPlan { retry_number: next, delay_nanos: *n as u128, source: RetrySource::RetryAfter },
                None => RetryPlan { retry_number: next, delay_nanos: backoff, source: RetrySource::Backoff },
            },
            AttemptOutcome::Failure { .. } => RetryPlan {
                retry_number: next,
                delay_nanos: backoff,
                source: RetrySource::Transport,
            },
        };
        Some(plan)
    }

    /// Decides what follows an attempt, reading the clock for jitter.
    pub fn next_retry(&self, method: &str, retry_number: u32, outcome: &AttemptOutcome) -> (r: Option<RetryPlan>)
        ensures
            exists|nanos: u32| r == spec_plan_retry(*self, method@, retry_number, *outcome, nanos),
            r is Some <==> (retry_number < self.retry_attempts && spec_outcome_retryable(
                *self,
                method@,
                *outcome,
            )),
            r matches Some(plan) ==> plan.retry_number == retry_number + 1,
    {
        let nanos = clock_subsec_nanos();
        self.plan_retry(method, retry_number, outcome, nanos)
    }
}

/// The backoff never exceeds the policy's maximum delay, whatever the retry
/// number and the jitter.
pub proof fn law_retry_delay_within_max(p: TransportPolicy, retry_number: u32, nanos: u32)
    ensures
        0 <= spec_retry_delay(p, retry_number, nanos) <= p.retry_max_delay_ms,
        0 <= spec_capped_delay(p, retry_number) <= p.retry_max_delay_ms,
{
    let exponent: nat = if retry_number == 0 { 0 } else { (retry_number - 1) as nat };
    lemma_two_pow_monotone(0, exponent);
    let capped = spec_capped_delay(p, retry_number);
    if p.retry_jitter {
        let lower = capped / 2;
        let spread = capped - lower;
        assert((nanos as int) % (spread + 1) <= spread);
    }
}

/// Without jitter the backoff never shrinks from one retry to the next.
pub proof fn law_backoff_non_decreasing(p: TransportPolicy, a: u32, b: u32)
    requires
        a <= b,
    ensures
        spec_capped_delay(p, a) <= spec_capped_delay(p, b),
{
    let ea: nat = if a == 0 { 0 } else { (a - 1) as nat };
    let eb: nat = if b == 0 { 0 } else { (b - 1) as nat };
    lemma_two_pow_monotone(ea, eb);
    let fa = saturate(two_pow(ea) as int);
    let fb = saturate(two_pow(eb) as int);
    assert(fa <= fb);
    assert(p.retry_base_delay_ms * fa <= p.retry_base_delay_ms * fb) by (nonlinear_arith)
        requires
            fa <= fb,
            0 <= p.retry_base_delay_ms,
    ;
}

/// A request is retried at most `retry_attempts` times: every planned retry
/// follows an attempt whose number is below the limit, and numbers it one
/// higher.
pub proof fn law_retries_bounded(
    p: TransportPolicy,
    method: Seq<char>,
    retry_number: u32,
    outcome: AttemptOutcome,
    nanos: u32,
)
    ensures
        spec_plan_retry(p, method, retry_number, outcome, nanos) matches Some(plan) ==> plan.retry_number
            <= p.retry_attempts && plan.retry_number == retry_number + 1,
        retry_number >= p.retry_attempts ==> spec_plan_retry(p, method, retry_number, outcome, nanos) is None,
{
}

/// Unsafe methods are never retried under a safe-methods-only policy.
pub proof fn law_safe_methods_only(p: TransportPolicy, method: Seq<char>, outcome: AttemptOutcome, retry_number: u32, nanos: u32)
    requires
        p.retry_safe_methods_only,
        !spec_is_safe_method(method),
    ensures
        spec_plan_retry(p, method, retry_number, outcome, nanos) is None,
{
}

} // verus!
