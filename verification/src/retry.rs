//! The rate-aware request service's retry policy.
//!
//! The service wraps one outbound request. When the transport succeeded and
//! the status is exactly "too many requests", the reset header (unix epoch
//! seconds) says when the window opens again: the service waits until then
//! (immediately, when the reset lies at most a second ahead) and reissues
//! the identical request. Every other outcome — transport failure, any
//! other status, success included — is final and is never retried. The
//! rate-limit condition itself is never surfaced as an error.

use vstd::prelude::*;

verus! {

/// The HTTP status that signals rate limiting.
pub const TOO_MANY_REQUESTS: u16 = 429;

/// The outcome of one transport attempt, as the policy sees it.
#[derive(Clone, Copy, Debug, PartialEq, Eq, Structural)]
pub enum RequestOutcome {
    /// The transport failed before any status was available.
    Failed,
    /// A response arrived with this status; a rate-limit reply carries the
    /// reset header value, in unix epoch seconds.
    Status { code: u16, reset: Option<u64> },
}

/// What the policy decides about one outcome.
#[derive(Clone, Copy, Debug, PartialEq, Eq, Structural)]
pub enum RetryDecision {
    /// Hand the outcome back as the final result.
    Finish,
    /// Sleep for `wait` time units, then reissue the identical request.
    RetryAfter { wait: u64 },
}

/// The retry policy: only a too-many-requests status is retried, after
/// waiting out the reset. A reset more than one second ahead is waited for
/// exactly (`wait == reset - now`); one at most a second ahead, or already
/// past, retries immediately (`wait == 0`).
pub open spec fn spec_retry_decision(outcome: RequestOutcome, now: u64) -> RetryDecision {
    match outcome {
        RequestOutcome::Status { code, reset } => {
            if code == TOO_MANY_REQUESTS {
                match reset {
                    Some(rst) => RetryDecision::RetryAfter {
                        wait: if rst > now + 1 {
                            (rst - now) as u64
                        } else {
                            0
                        },
                    },
                    None => RetryDecision::Finish,
                }
            } else {
                RetryDecision::Finish
            }
        },
        RequestOutcome::Failed => RetryDecision::Finish,
    }
}

/// Applies the retry policy to one outcome. A rate-limit reply without its
/// reset header is outside the service's contract (the remote promises the
/// header), so the caller must rule it out.
pub fn retry_decision(outcome: &RequestOutcome, now: u64) -> (r: RetryDecision)
    requires
        !(outcome matches RequestOutcome::Status { code: 429u16, reset: None }),
    ensures
        r == spec_retry_decision(*outcome, now),
{
    match outcome {
        RequestOutcome::Status { code, reset } => {
            if *code == TOO_MANY_REQUESTS {
                match reset {
                    Some(rst) => {
                        let wait: u64 = if *rst > now && *rst - now > 1 {
                            *rst - now
                        } else {
                            0
                        };
                        RetryDecision::RetryAfter { wait }
                    },
                    None => RetryDecision::Finish,
                }
            } else {
                RetryDecision::Finish
            }
        },
        RequestOutcome::Failed => RetryDecision::Finish,
    }
}

/// One request of the rate-aware service, held unchanged across retries.
#[derive(Clone, Debug, PartialEq, Eq)]
pub struct ServiceCall {
    /// The request URL bytes.
    pub url: Vec<u8>,
}

/// What the service does after one attempt of a call.
#[derive(Debug, PartialEq, Eq)]
pub enum ServiceStep {
    /// Hand the outcome back as the final result.
    Done,
    /// Sleep for `wait` time units, then reissue the request at `url` —
    /// byte for byte the one that was rate-limited.
    Resend { wait: u64, url: Vec<u8> },
}

/// Drives one attempt's outcome through the policy. A retry reissues the
/// identical request: the returned URL equals the call's URL byte for
/// byte.
pub fn service_step(call: &ServiceCall, outcome: &RequestOutcome, now: u64) -> (r: ServiceStep)
    requires
        !(outcome matches RequestOutcome::Status { code: 429u16, reset: None }),
    ensures
        match spec_retry_decision(*outcome, now) {
            RetryDecision::Finish => r is Done,
            RetryDecision::RetryAfter { wait } => r matches ServiceStep::Resend {
                wait: w,
                url,
            } && w == wait && url@ == call.url@,
        },
{
    match retry_decision(outcome, now) {
        RetryDecision::Finish => ServiceStep::Done,
        RetryDecision::RetryAfter { wait } => {
            let mut url: Vec<u8> = Vec::new();
            url.extend_from_slice(call.url.as_slice());
            proof {
                assert(url@ =~= call.url@);
            }
            ServiceStep::Resend { wait, url }
        },
    }
}

/// Given a rate-limit reply whose reset lies more than a second ahead, the
/// retry is scheduled exactly at the reset instant, never earlier; a reset
/// at most a second ahead (or already past) retries immediately.
pub proof fn lemma_retry_waits_for_reset(reset: u64, now: u64)
    ensures
        ({
            let d = spec_retry_decision(
                RequestOutcome::Status { code: 429u16, reset: Some(reset) },
                now,
            );
            &&& d matches RetryDecision::RetryAfter { wait }
            &&& reset > now + 1 ==> now + wait == reset
            &&& reset <= now + 1 ==> wait == 0
        }),
{
}

/// An outcome other than a rate-limit reply is never retried, whatever it
/// is: transport failure, success, or any other status.
pub proof fn lemma_only_rate_limit_retried(outcome: RequestOutcome, now: u64)
    requires
        !(outcome matches RequestOutcome::Status { code: 429u16, reset: Some(_) }),
    ensures
        spec_retry_decision(outcome, now) == RetryDecision::Finish,
{
}

} // verus!
