//! The fetcher's rules: when an attempt may go out, how long to back off when the
//! rate limiter refuses it, and how a response is classified.
//!
//! The network call itself is made by the caller, which reports here what happened.
use vstd::prelude::*;

use crate::error::CrawlerError;
use crate::limiter::{check_result, RateLimiter};

verus! {

/// Rate-limited attempts that are retried before giving up.
pub const MAX_RETRIES: u32 = 5;

/// Seconds a request may take before it fails as a transport error.
pub const REQUEST_TIMEOUT_SECS: u64 = 10;

/// The user agent sent with every request.
pub const USER_AGENT: &'static str = "Thamur/1.0";

/// What the fetcher does next with a pending attempt.
#[derive(Debug, Clone)]
pub enum RetryAction {
    /// A token was taken: send the request.
    Proceed,
    /// Sleep this many seconds, then check the limiter again.
    Sleep(u64),
    /// Give up on the attempt with this error, without sending the request.
    GiveUp(CrawlerError),
}

/// The backoff before retry number `retries + 1`: the limiter's hint times the
/// number of attempts so far, saturating at the largest `u64`.
pub open spec fn backoff_secs(wait: u64, retries: u32) -> u64 {
    let b = wait * (retries + 1);
    if b <= u64::MAX {
        b as u64
    } else {
        u64::MAX
    }
}

/// The action owed after `retries` earlier refusals, given the limiter's answer `check`.
pub open spec fn retry_action(retries: u32, check: Result<(), CrawlerError>) -> RetryAction {
    match check {
        Ok(_) => RetryAction::Proceed,
        Err(CrawlerError::RateLimitError(w)) => {
            if retries >= MAX_RETRIES {
                RetryAction::GiveUp(CrawlerError::RateLimitError(w))
            } else {
                RetryAction::Sleep(backoff_secs(w, retries))
            }
        },
        Err(e) => RetryAction::GiveUp(e),
    }
}

/// Decides the next step of an attempt after `retries` earlier refusals, given the
/// limiter's answer `check`: proceed on a token; on a refusal, back off linearly
/// until the retry budget is spent; give up on any other error.
pub fn next_attempt(retries: u32, check: Result<(), CrawlerError>) -> (r: RetryAction)
    ensures
        r == retry_action(retries, check),
{
    match check {
        Ok(_) => RetryAction::Proceed,
        Err(CrawlerError::RateLimitError(w)) => {
            if retries >= MAX_RETRIES {
                RetryAction::GiveUp(CrawlerError::RateLimitError(w))
            } else {
                let secs = match w.checked_mul((retries + 1) as u64) {
                    Some(b) => b,
                    None => u64::MAX,
                };
                RetryAction::Sleep(secs)
            }
        },
        Err(e) => RetryAction::GiveUp(e),
    }
}

/// The state of one fetch attempt while it waits for the rate limiter.
#[derive(Debug)]
pub struct FetchGate {
    /// Refusals so far.
    pub retries: u32,
}

impl FetchGate {
    /// An attempt that has not been refused yet.
    pub fn new() -> (r: Self)
        ensures
            r.retries == 0,
    {
        FetchGate { retries: 0 }
    }

    /// Asks `limiter` for a token at the second `now` and decides the next step; a
    /// backoff counts as one more retry.
    pub fn step(&mut self, limiter: &mut RateLimiter, now: u64) -> (r: RetryAction)
        requires
            old(limiter)@.wf(),
            old(self).retries <= MAX_RETRIES,
        ensures
            final(limiter)@ == old(limiter)@.after_check(now as nat),
            final(limiter)@.wf(),
            exists|c: Result<(), CrawlerError>|
                check_result(old(limiter)@, now as nat, c) && r == #[trigger] retry_action(
                    old(self).retries,
                    c,
                ),
            final(self).retries == if r is Sleep {
                old(self).retries + 1
            } else {
                old(self).retries as int
            },
            final(self).retries <= MAX_RETRIES,
    {
        let c = limiter.check_tokens_at(now);
        let r = next_attempt(self.retries, c);
        if let RetryAction::Sleep(_) = r {
            self.retries = self.retries + 1;
        }
        r
    }
}

/// Classifies a response: a 2xx status yields the body, the status and the
/// `Content-Type` value; any other status is an `HttpError` carrying it, without the body.
pub fn classify_response(status: u16, body: String, content_type: Option<String>) -> (r: Result<
    (String, u16, Option<String>),
    CrawlerError,
>)
    ensures
        200 <= status <= 299 ==> r == Ok::<(String, u16, Option<String>), CrawlerError>(
            (body, status, content_type),
        ),
        !(200 <= status <= 299) ==> r == Err::<(String, u16, Option<String>), CrawlerError>(
            CrawlerError::HttpError(status),
        ),
{
    if 200 <= status && status <= 299 {
        Ok((body, status, content_type))
    } else {
        Err(CrawlerError::HttpError(status))
    }
}

/// Whether a fetch result is definitive, so that its URL is recorded as visited: a
/// success, an HTTP status error or a transport error. A spent rate-limit budget is
/// not: the URL may be tried again later.
pub open spec fn is_definitive(r: Result<(String, u16, Option<String>), CrawlerError>) -> bool {
    match r {
        Ok(_) => true,
        Err(CrawlerError::HttpError(_)) => true,
        Err(CrawlerError::HyperError(_)) => true,
        Err(_) => false,
    }
}

/// Whether a fetch result is definitive; see [`is_definitive`].
pub fn outcome_is_definitive(r: &Result<(String, u16, Option<String>), CrawlerError>) -> (b: bool)
    ensures
        b == is_definitive(*r),
{
    match r {
        Ok(_) => true,
        Err(CrawlerError::HttpError(_)) => true,
        Err(CrawlerError::HyperError(_)) => true,
        Err(_) => false,
    }
}

} // verus!
