//! The HTTP client's decisions: how long to wait between requests, and what to
//! do after each attempt of a request (read the body, retry after a pause, or
//! stop with a result). Sending, sleeping and reading are done by the caller,
//! which reports back what happened.
use vstd::prelude::*;

use crate::error::{DocsiteError, DocsiteErrorView};
use crate::types::{FetchResult, FetchResultView};

verus! {

// ---------------------------------------------------------------- pacing

/// Requests are kept `rate_limit_ms` apart: the wait before the next request,
/// in nanoseconds, given the time since the previous one (`None` before the
/// first request). No limit means no wait.
pub open spec fn throttle_wait_spec(rate_limit_ms: u64, elapsed_nanos: Option<u128>) -> int {
    let limit = rate_limit_ms as int * 1_000_000;
    match elapsed_nanos {
        Some(e) => if rate_limit_ms != 0 && (e as int) < limit {
            limit - e
        } else {
            0
        },
        None => 0,
    }
}

pub fn throttle_wait_nanos(rate_limit_ms: u64, elapsed_nanos: Option<u128>) -> (r: u128)
    ensures
        r as int == throttle_wait_spec(rate_limit_ms, elapsed_nanos),
{
    if rate_limit_ms == 0 {
        return 0;
    }
    let limit: u128 = (rate_limit_ms as u128) * 1_000_000;
    match elapsed_nanos {
        Some(e) => if e < limit {
            limit - e
        } else {
            0
        },
        None => 0,
    }
}

/// Rate limiting: after waiting as told, at least the limit has passed since
/// the previous request; no wait is longer than the limit.
pub proof fn lemma_throttle_spacing(rate_limit_ms: u64, elapsed_nanos: u128)
    ensures
        elapsed_nanos + throttle_wait_spec(rate_limit_ms, Some(elapsed_nanos)) >= rate_limit_ms
            * 1_000_000,
        0 <= throttle_wait_spec(rate_limit_ms, Some(elapsed_nanos)) <= rate_limit_ms * 1_000_000,
{
}

// ---------------------------------------------------------------- back-off

pub open spec fn pow2(n: nat) -> nat
    decreases n,
{
    if n == 0 {
        1
    } else {
        2 * pow2((n - 1) as nat)
    }
}

proof fn lemma_pow2_monotone(a: nat, b: nat)
    requires
        a <= b,
    ensures
        pow2(a) <= pow2(b),
    decreases b - a,
{
    if a < b {
        lemma_pow2_monotone(a, (b - 1) as nat);
    }
}

/// The pause after attempt `attempt` (counting from 0): 50 ms, doubled for
/// each earlier attempt, saturating at `u64::MAX`.
pub open spec fn retry_delay_spec(attempt: nat) -> u64 {
    if 50 * pow2(attempt) > u64::MAX {
        u64::MAX
    } else {
        (50 * pow2(attempt)) as u64
    }
}

pub fn retry_delay_ms(attempt: usize) -> (r: u64)
    ensures
        r == retry_delay_spec(attempt as nat),
{
    let mut d: u64 = 50;
    let mut i: usize = 0;
    while i < attempt
        invariant
            i <= attempt,
            d as int == 50 * pow2(i as nat),
        decreases attempt - i,
    {
        assert(pow2((i + 1) as nat) == 2 * pow2(i as nat));
        if d > u64::MAX / 2 {
            proof {
                lemma_pow2_monotone((i + 1) as nat, attempt as nat);
            }
            return u64::MAX;
        }
        d = d * 2;
        i = i + 1;
    }
    d
}

// ---------------------------------------------------------------- attempts

/// What came of the last step of a request.
pub enum AttemptEvent {
    /// The request could not be sent or got no response; the error's message.
    SendFailed(String),
    /// A response arrived with this status code.
    Responded(u16),
    /// The body of a successful response was read.
    BodyRead(FetchResult),
    /// Reading the body of a successful response failed; the error's message.
    BodyFailed(String),
}

pub enum AttemptEventView {
    SendFailed(Seq<char>),
    Responded(u16),
    BodyRead(FetchResultView),
    BodyFailed(Seq<char>),
}

impl View for AttemptEvent {
    type V = AttemptEventView;

    open spec fn view(&self) -> AttemptEventView {
        match self {
            AttemptEvent::SendFailed(m) => AttemptEventView::SendFailed(m@),
            AttemptEvent::Responded(s) => AttemptEventView::Responded(*s),
            AttemptEvent::BodyRead(r) => AttemptEventView::BodyRead(r@),
            AttemptEvent::BodyFailed(m) => AttemptEventView::BodyFailed(m@),
        }
    }
}

/// What the caller does next.
pub enum FetchAction {
    /// Read the body of the response just received.
    ReadBody,
    /// Wait this many milliseconds, then send the request again (paced as usual).
    Retry(u64),
    /// The request is over, with this outcome.
    Finish(Result<FetchResult, DocsiteError>),
}

pub enum FetchActionView {
    ReadBody,
    Retry(u64),
    Finish(Result<FetchResultView, DocsiteErrorView>),
}

impl View for FetchAction {
    type V = FetchActionView;

    open spec fn view(&self) -> FetchActionView {
        match self {
            FetchAction::ReadBody => FetchActionView::ReadBody,
            FetchAction::Retry(d) => FetchActionView::Retry(*d),
            FetchAction::Finish(Ok(r)) => FetchActionView::Finish(Ok(r@)),
            FetchAction::Finish(Err(e)) => FetchActionView::Finish(Err(e@)),
        }
    }
}

/// One request of a URL, tried up to `retry_attempts + 1` times.
pub struct FetchAttempts {
    url: String,
    retry_attempts: usize,
    attempt: usize,
    last_error: Option<String>,
}

pub struct FetchAttemptsView {
    pub url: Seq<char>,
    pub retry_attempts: nat,
    /// The attempt under way, counting from 0.
    pub attempt: nat,
    pub last_error: Option<Seq<char>>,
}

impl View for FetchAttempts {
    type V = FetchAttemptsView;

    closed spec fn view(&self) -> FetchAttemptsView {
        FetchAttemptsView {
            url: self.url@,
            retry_attempts: self.retry_attempts as nat,
            attempt: self.attempt as nat,
            last_error: match self.last_error {
                Some(m) => Some(m@),
                None => None,
            },
        }
    }
}

/// The attempt under way is never past the last one allowed.
pub open spec fn attempts_wf(s: FetchAttemptsView) -> bool {
    s.attempt <= s.retry_attempts && s.retry_attempts <= usize::MAX
}

/// A status of the 2xx range.
pub open spec fn is_success_status(status: u16) -> bool {
    200 <= status <= 299
}

/// The state after moving on to the next attempt.
pub open spec fn next_attempt(s: FetchAttemptsView) -> FetchAttemptsView {
    FetchAttemptsView { attempt: s.attempt + 1, ..s }
}

/// The decision after an event: a failed send or an unsuccessful status is
/// retried after the back-off pause while attempts remain; on the last
/// attempt a failed send ends with the request error (its message) and an
/// unsuccessful status with the status error. A successful status asks for the
/// body, whose reading ends the request either way.
pub open spec fn fetch_step(s: FetchAttemptsView, e: AttemptEventView) -> (
    FetchAttemptsView,
    FetchActionView,
) {
    match e {
        AttemptEventView::SendFailed(m) => {
            let s1 = FetchAttemptsView { last_error: Some(m), ..s };
            if s.attempt < s.retry_attempts {
                (next_attempt(s1), FetchActionView::Retry(retry_delay_spec(s.attempt)))
            } else {
                (
                    s1,
                    FetchActionView::Finish(
                        Err(DocsiteErrorView::Request { url: s.url, message: m }),
                    ),
                )
            }
        },
        AttemptEventView::Responded(status) => {
            if is_success_status(status) {
                (s, FetchActionView::ReadBody)
            } else if s.attempt < s.retry_attempts {
                (next_attempt(s), FetchActionView::Retry(retry_delay_spec(s.attempt)))
            } else {
                (
                    s,
                    FetchActionView::Finish(
                        Err(DocsiteErrorView::HttpStatus { url: s.url, status }),
                    ),
                )
            }
        },
        AttemptEventView::BodyRead(r) => (s, FetchActionView::Finish(Ok(r))),
        AttemptEventView::BodyFailed(m) => (
            s,
            FetchActionView::Finish(Err(DocsiteErrorView::Request { url: s.url, message: m })),
        ),
    }
}

impl FetchAttempts {
    /// A request of `url` that has not been sent yet; the caller sends it.
    pub fn new(url: &str, retry_attempts: usize) -> (r: FetchAttempts)
        ensures
            r@.url == url@,
            r@.retry_attempts == retry_attempts,
            r@.attempt == 0,
            r@.last_error is None,
            attempts_wf(r@),
    {
        FetchAttempts {
            url: url.to_string(),
            retry_attempts,
            attempt: 0,
            last_error: None,
        }
    }

    /// The attempt under way, counting from 0.
    pub fn attempt(&self) -> (r: usize)
        ensures
            r == self@.attempt,
    {
        self.attempt
    }

    /// Decides what follows an event.
    pub fn on_event(&mut self, event: AttemptEvent) -> (r: FetchAction)
        requires
            attempts_wf(old(self)@),
        ensures
            (final(self)@, r@) == fetch_step(old(self)@, event@),
            attempts_wf(final(self)@),
    {
        match event {
            AttemptEvent::SendFailed(m) => {
                let msg = m.clone();
                self.last_error = Some(m);
                if self.attempt < self.retry_attempts {
                    let d = retry_delay_ms(self.attempt);
                    self.attempt = self.attempt + 1;
                    FetchAction::Retry(d)
                } else {
                    FetchAction::Finish(
                        Err(DocsiteError::Request { url: self.url.clone(), message: msg }),
                    )
                }
            },
            AttemptEvent::Responded(status) => {
                if 200 <= status && status <= 299 {
                    FetchAction::ReadBody
                } else if self.attempt < self.retry_attempts {
                    let d = retry_delay_ms(self.attempt);
                    self.attempt = self.attempt + 1;
                    FetchAction::Retry(d)
                } else {
                    FetchAction::Finish(Err(DocsiteError::HttpStatus { url: self.url.clone(), status }))
                }
            },
            AttemptEvent::BodyRead(r) => FetchAction::Finish(Ok(r)),
            AttemptEvent::BodyFailed(m) => FetchAction::Finish(
                Err(DocsiteError::Request { url: self.url.clone(), message: m }),
            ),
        }
    }
}

/// A request is sent at most `retry_attempts + 1` times: a retry is only
/// decided while attempts remain, and each retry moves to the next attempt;
/// every other decision leaves the attempt count as it was.
pub proof fn lemma_retries_bounded(s: FetchAttemptsView, e: AttemptEventView)
    requires
        attempts_wf(s),
    ensures
        attempts_wf(fetch_step(s, e).0),
        fetch_step(s, e).1 is Retry ==> s.attempt < s.retry_attempts && fetch_step(s, e).0.attempt
            == s.attempt + 1,
        !(fetch_step(s, e).1 is Retry) ==> fetch_step(s, e).0.attempt == s.attempt,
{
}

/// On the last attempt nothing is retried: the request ends or reads its body.
pub proof fn lemma_last_attempt_final(s: FetchAttemptsView, e: AttemptEventView)
    requires
        attempts_wf(s),
        s.attempt == s.retry_attempts,
    ensures
        !(fetch_step(s, e).1 is Retry),
{
}

} // verus!
