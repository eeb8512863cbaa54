//! A token bucket that gates outbound fetch attempts.
//!
//! Refill is computed lazily on each check from the whole seconds elapsed since
//! the last admitted check, so the bucket needs no timer of its own.
use vstd::arithmetic::div_mod::lemma_sub_mod_noop_right;
use vstd::prelude::*;

use crate::error::CrawlerError;

verus! {

/// Tokens that a new limiter holds by default.
pub const DEFAULT_CAPACITY: usize = 100;

/// Tokens added per second by default.
pub const DEFAULT_REFILL_RATE: usize = 50;

/// The abstract state of a token bucket.
pub ghost struct LimiterView {
    /// Tokens available now.
    pub tokens: nat,
    /// Second (since the Unix epoch) of the last admitted check.
    pub last_update: nat,
    /// Most tokens the bucket holds.
    pub capacity: nat,
    /// Tokens added per elapsed second.
    pub refill_rate: nat,
}

impl LimiterView {
    /// The bucket is within its bounds and refills at a positive rate.
    pub open spec fn wf(self) -> bool {
        &&& self.tokens <= self.capacity
        &&& self.refill_rate > 0
    }

    /// Whole seconds between the last admitted check and `now`; zero if the clock went back.
    pub open spec fn elapsed(self, now: nat) -> nat {
        if now >= self.last_update {
            (now - self.last_update) as nat
        } else {
            0
        }
    }

    /// Tokens held at `now` once the elapsed seconds have been credited, capped at capacity.
    pub open spec fn refilled(self, now: nat) -> nat {
        let t = self.tokens + self.elapsed(now) * self.refill_rate;
        if t <= self.capacity {
            t
        } else {
            self.capacity
        }
    }

    /// Whether a check at `now` is admitted.
    pub open spec fn admits(self, now: nat) -> bool {
        self.refilled(now) > 0
    }

    /// The state after a check at `now`: one token taken and the clock moved on if
    /// admitted, unchanged otherwise.
    pub open spec fn after_check(self, now: nat) -> LimiterView {
        if self.admits(now) {
            LimiterView { tokens: (self.refilled(now) - 1) as nat, last_update: now, ..self }
        } else {
            self
        }
    }

    /// The wait suggested by a refused check at `now`: `(refill_rate - elapsed) mod refill_rate`.
    pub open spec fn wait_hint(self, now: nat) -> int {
        (self.refill_rate - self.elapsed(now)) % (self.refill_rate as int)
    }

    /// The state after checks at each of `times` in turn.
    pub open spec fn after_checks(self, times: Seq<nat>) -> LimiterView
        decreases times.len(),
    {
        if times.len() == 0 {
            self
        } else {
            self.after_check(times[0]).after_checks(times.drop_first())
        }
    }
}

/// The result of a check at `now` on the bucket `v`, as a library value.
pub open spec fn check_result(v: LimiterView, now: nat, r: Result<(), CrawlerError>) -> bool {
    if v.admits(now) {
        r is Ok
    } else {
        r == Err::<(), CrawlerError>(CrawlerError::RateLimitError(v.wait_hint(now) as u64))
    }
}

/// A token bucket: `capacity` tokens at most, `refill_rate` tokens added per second.
#[derive(Debug)]
pub struct RateLimiter {
    tokens: usize,
    last_update: u64,
    capacity: usize,
    refill_rate: usize,
}

impl View for RateLimiter {
    type V = LimiterView;

    closed spec fn view(&self) -> LimiterView {
        LimiterView {
            tokens: self.tokens as nat,
            last_update: self.last_update as nat,
            capacity: self.capacity as nat,
            refill_rate: self.refill_rate as nat,
        }
    }
}

/// The limiter with the default configuration: 100 tokens, 50 added per second.
pub fn get_rate_limiter() -> (r: RateLimiter)
    ensures
        r@ == (LimiterView {
            tokens: DEFAULT_CAPACITY as nat,
            last_update: 0,
            capacity: DEFAULT_CAPACITY as nat,
            refill_rate: DEFAULT_REFILL_RATE as nat,
        }),
        r@.wf(),
{
    RateLimiter::new(DEFAULT_CAPACITY, DEFAULT_REFILL_RATE)
}

/// Relies on `std::time::SystemTime::now`: whole seconds since the Unix epoch,
/// zero if the clock stands before it. Nothing is promised of the value.
#[verifier::external_body]
fn unix_now_secs() -> (r: u64) {
    std::time::SystemTime::now()
        .duration_since(std::time::UNIX_EPOCH)
        .map(|d| d.as_secs())
        .unwrap_or(0)
}

impl RateLimiter {
    /// A full bucket of `capacity` tokens whose clock stands at the epoch.
    pub fn new(capacity: usize, refill_rate: usize) -> (r: Self)
        requires
            refill_rate > 0,
        ensures
            r@ == (LimiterView {
                tokens: capacity as nat,
                last_update: 0,
                capacity: capacity as nat,
                refill_rate: refill_rate as nat,
            }),
            r@.wf(),
    {
        RateLimiter { tokens: capacity, last_update: 0, capacity, refill_rate }
    }

    /// Most tokens the bucket holds.
    pub fn capacity(&self) -> (r: usize)
        ensures
            r as nat == self@.capacity,
    {
        self.capacity
    }

    /// Tokens available now, before any refill is credited.
    pub fn tokens(&self) -> (r: usize)
        ensures
            r as nat == self@.tokens,
    {
        self.tokens
    }

    /// Checks for a token at the second `now`: credits the elapsed seconds, then
    /// takes one token if any is there, or reports how long to wait.
    pub fn check_tokens_at(&mut self, now: u64) -> (r: Result<(), CrawlerError>)
        requires
            old(self)@.wf(),
        ensures
            final(self)@ == old(self)@.after_check(now as nat),
            final(self)@.wf(),
            check_result(old(self)@, now as nat, r),
    {
        let elapsed: u64 = if now >= self.last_update {
            now - self.last_update
        } else {
            0
        };
        let rate = self.refill_rate as u64;
        let room = (self.capacity - self.tokens) as u64;
        let refilled: usize = match elapsed.checked_mul(rate) {
            Some(add) => {
                if add < room {
                    self.tokens + add as usize
                } else {
                    self.capacity
                }
            },
            None => {
                proof {
                    assert(elapsed * rate >= room) by (nonlinear_arith)
                        requires
                            elapsed * rate > u64::MAX,
                            room <= u64::MAX,
                    ;
                }
                self.capacity
            },
        };
        proof {
            assert(refilled as nat == old(self)@.refilled(now as nat));
        }
        if refilled > 0 {
            self.tokens = refilled;
            self.last_update = now;
            self.consume_token();
            Ok(())
        } else {
            let wait = (rate - elapsed % rate) % rate;
            proof {
                lemma_sub_mod_noop_right(rate as int, elapsed as int, rate as int);
                assert(wait == old(self)@.wait_hint(now as nat));
            }
            Err(CrawlerError::RateLimitError(wait))
        }
    }

    /// Checks for a token at the current second of the system clock.
    pub fn check_tokens(&mut self) -> (r: Result<(), CrawlerError>)
        requires
            old(self)@.wf(),
        ensures
            final(self)@.wf(),
            exists|now: nat|
                final(self)@ == old(self)@.after_check(now) && #[trigger] check_result(
                    old(self)@,
                    now,
                    r,
                ),
    {
        let now = unix_now_secs();
        self.check_tokens_at(now)
    }

    /// Takes one token.
    pub fn consume_token(&mut self)
        requires
            old(self)@.tokens > 0,
        ensures
            final(self)@ == (LimiterView { tokens: (old(self)@.tokens - 1) as nat, ..old(self)@ }),
    {
        self.tokens = self.tokens - 1;
    }
}

/// However checks and time advances interleave, a well-formed bucket never holds
/// more tokens than its capacity, nor fewer than none.
pub proof fn lemma_tokens_within_capacity(v: LimiterView, times: Seq<nat>)
    requires
        v.wf(),
    ensures
        forall|i: int|
            0 <= i <= times.len() ==> {
                let w = #[trigger] v.after_checks(times.take(i));
                &&& w.wf()
                &&& 0 <= w.tokens <= w.capacity
                &&& w.capacity == v.capacity
            },
    decreases times.len(),
{
    if times.len() > 0 {
        let v1 = v.after_check(times[0]);
        assert(v1.wf() && v1.capacity == v.capacity);
        lemma_tokens_within_capacity(v1, times.drop_first());
        assert forall|i: int| 0 <= i <= times.len() implies {
            let w = #[trigger] v.after_checks(times.take(i));
            &&& w.wf()
            &&& 0 <= w.tokens <= w.capacity
            &&& w.capacity == v.capacity
        } by {
            if i > 0 {
                let t = times.take(i);
                assert(t[0] == times[0]);
                assert(t.drop_first() =~= times.drop_first().take(i - 1));
                assert(v.after_checks(t) == v1.after_checks(times.drop_first().take(i - 1)));
            } else {
                assert(times.take(i) =~= Seq::<nat>::empty());
            }
        }
    } else {
        assert(times.take(0) =~= Seq::<nat>::empty());
    }
}

/// A bucket of one token refilled at one per second refuses a second check in the
/// second of an admitted one, and admits a check once a full second has passed.
pub proof fn lemma_single_token_refill(now: nat, later: nat)
    requires
        later >= now + 1,
    ensures
        ({
            let v = LimiterView { tokens: 1, last_update: 0, capacity: 1, refill_rate: 1 };
            let w = v.after_check(now);
            &&& v.admits(now)
            &&& !w.admits(now)
            &&& w.after_check(now) == w
            &&& w.admits(later)
        }),
{
    let v = LimiterView { tokens: 1, last_update: 0, capacity: 1, refill_rate: 1 };
    assert(v.elapsed(now) == now);
    assert(v.refilled(now) == 1) by (nonlinear_arith)
        requires
            v.refilled(now) == if 1 + now * 1 <= 1 { 1 + now * 1 } else { 1 },
    ;
    let w = v.after_check(now);
    assert(w.tokens == 0 && w.last_update == now);
    assert(w.elapsed(now) == 0);
    assert(w.refilled(now) == 0);
    let e = w.elapsed(later);
    assert(e >= 1);
    assert(w.refilled(later) == 1) by (nonlinear_arith)
        requires
            e >= 1,
            w.refilled(later) == if 0 + e * 1 <= 1 { 0 + e * 1 } else { 1 },
    ;
}

} // verus!
