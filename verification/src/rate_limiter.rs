//! Token-bucket rate limiter fronting the approval channel.
//!
//! Tokens are counted in micro-tokens ([`TOKEN_SCALE`] per token) so that
//! fractional refill accrues exactly; the refill rate is micro-tokens per
//! second and instants are milliseconds on one monotonic clock, supplied by
//! the caller. Tokens accrue at the refill rate up to the bucket's
//! capacity; each grant consumes one token; a full bucket permits a full
//! burst. The waiting itself is the runtime's: [`RateLimiter::acquire_step`]
//! tells it how long to sleep before retrying.

use vstd::prelude::*;
use vstd::arithmetic::div_mod::*;

verus! {

/// Micro-tokens per token.
pub const TOKEN_SCALE: u64 = 1000000;

/// Error from constructing a rate limiter.
#[derive(Debug, Clone, Copy, PartialEq, Eq, Structural)]
pub enum RateLimiterError {
    /// The refill rate was zero: every acquire would wait forever.
    ZeroRate,
}

/// Token-bucket state.
#[derive(Debug, Clone, Copy, PartialEq, Eq, Structural)]
pub struct RateLimiter {
    /// Tokens now in the bucket, in micro-tokens.
    pub tokens: u64,
    /// Bucket capacity, in micro-tokens.
    pub max_tokens: u64,
    /// Refill rate, in micro-tokens per second.
    pub refill_rate: u64,
    /// When the bucket was last refilled, in milliseconds.
    pub last_refill: u64,
}

/// The outcome of one acquire attempt.
#[derive(Debug, Clone, Copy, PartialEq, Eq, Structural)]
pub enum AcquireOutcome {
    /// A token was consumed.
    Acquired,
    /// No token is available; retry after `ms` milliseconds.
    Wait {
        /// How long to wait before retrying, in milliseconds.
        ms: u64,
    },
}

impl RateLimiter {
    /// Well-formedness: the bucket never holds more than its capacity, and
    /// the refill rate is positive.
    pub open spec fn wf(&self) -> bool {
        &&& self.tokens <= self.max_tokens
        &&& self.refill_rate >= 1
    }

    /// A limiter granting `rate` micro-tokens per second, starting with a
    /// full bucket of the same capacity. A zero rate is rejected: it could
    /// never grant anything.
    pub fn new(rate: u64, now: u64) -> (r: Result<Self, RateLimiterError>)
        ensures
            r matches Ok(l) ==> rate >= 1 && l == (RateLimiter {
                tokens: rate,
                max_tokens: rate,
                refill_rate: rate,
                last_refill: now,
            }) && l.wf(),
            r is Err <==> rate == 0,
    {
        if rate == 0 {
            Err(RateLimiterError::ZeroRate)
        } else {
            Ok(RateLimiter { tokens: rate, max_tokens: rate, refill_rate: rate, last_refill: now })
        }
    }
}

/// Milliseconds elapsed since the last refill; a clock reading from the
/// past counts as no time passed.
pub open spec fn spec_elapsed(s: RateLimiter, now: u64) -> int {
    if now > s.last_refill {
        now - s.last_refill
    } else {
        0
    }
}

/// The tokens in the bucket after refilling at `now`: what accrued over the
/// elapsed time, clamped to the capacity.
pub open spec fn spec_refill_tokens(s: RateLimiter, now: u64) -> int {
    let added = spec_elapsed(s, now) * s.refill_rate / 1000;
    if s.tokens + added <= s.max_tokens {
        s.tokens + added
    } else {
        s.max_tokens as int
    }
}

/// The state after refilling at `now`.
pub open spec fn spec_refill(s: RateLimiter, now: u64) -> RateLimiter {
    RateLimiter {
        tokens: spec_refill_tokens(s, now) as u64,
        last_refill: if now > s.last_refill {
            now
        } else {
            s.last_refill
        },
        ..s
    }
}

/// One operation at `now`: refill, then consume a token if a whole one is
/// there. Returns the new state and whether a token was consumed.
pub open spec fn spec_op(s: RateLimiter, now: u64) -> (RateLimiter, bool) {
    let r = spec_refill(s, now);
    if r.tokens >= TOKEN_SCALE {
        (RateLimiter { tokens: (r.tokens - TOKEN_SCALE) as u64, ..r }, true)
    } else {
        (r, false)
    }
}

/// How long to wait, in milliseconds, until a whole token has accrued:
/// the deficit converted at the refill rate, rounded up.
pub open spec fn spec_wait_ms(r: RateLimiter) -> int {
    let num = (TOKEN_SCALE - r.tokens) * 1000;
    if num % (r.refill_rate as int) == 0 {
        num / (r.refill_rate as int)
    } else {
        num / (r.refill_rate as int) + 1
    }
}

proof fn lemma_refill_wf(s: RateLimiter, now: u64)
    requires
        s.wf(),
    ensures
        spec_refill(s, now).wf(),
        spec_refill(s, now).tokens == spec_refill_tokens(s, now),
        spec_refill(s, now).last_refill >= s.last_refill,
        spec_refill(s, now).max_tokens == s.max_tokens,
        spec_refill(s, now).refill_rate == s.refill_rate,
{
    let e = spec_elapsed(s, now);
    assert(e * s.refill_rate >= 0) by (nonlinear_arith)
        requires
            e >= 0,
            s.refill_rate >= 0,
    ;
    lemma_div_pos_is_pos(e * s.refill_rate, 1000);
}

proof fn lemma_op_wf(s: RateLimiter, now: u64)
    requires
        s.wf(),
    ensures
        spec_op(s, now).0.wf(),
        spec_op(s, now).0.max_tokens == s.max_tokens,
        spec_op(s, now).0.refill_rate == s.refill_rate,
        spec_op(s, now).0.last_refill >= s.last_refill,
{
    lemma_refill_wf(s, now);
}

impl RateLimiter {
    /// Refills the bucket for the time elapsed since the last refill and
    /// advances the refill instant. A clock reading from the past adds
    /// nothing.
    pub fn refill(&mut self, now: u64)
        requires
            old(self).wf(),
        ensures
            *final(self) == spec_refill(*old(self), now),
            final(self).wf(),
    {
        proof {
            lemma_refill_wf(*old(self), now);
        }
        let elapsed: u64 = if now > self.last_refill {
            now - self.last_refill
        } else {
            0
        };
        proof {
            assert((elapsed as int) * (self.refill_rate as int) <= u128::MAX) by (nonlinear_arith)
                requires
                    0 <= elapsed <= u64::MAX,
                    0 <= self.refill_rate <= u64::MAX,
            ;
        }
        let added: u128 = (elapsed as u128) * (self.refill_rate as u128) / 1000;
        let room: u128 = (self.max_tokens - self.tokens) as u128;
        if added >= room {
            self.tokens = self.max_tokens;
        } else {
            self.tokens = self.tokens + (added as u64);
        }
        if now > self.last_refill {
            self.last_refill = now;
        }
    }

    /// Tries to consume one token without waiting, after refilling at
    /// `now`. Returns whether a token was consumed.
    pub fn try_acquire(&mut self, now: u64) -> (granted: bool)
        requires
            old(self).wf(),
        ensures
            (*final(self), granted) == spec_op(*old(self), now),
            final(self).wf(),
    {
        proof {
            lemma_op_wf(*old(self), now);
        }
        self.refill(now);
        if self.tokens >= TOKEN_SCALE {
            self.tokens = self.tokens - TOKEN_SCALE;
            true
        } else {
            false
        }
    }

    /// One round of a waiting acquire: refill at `now`, consume a token if
    /// a whole one is there, and otherwise say how many milliseconds to
    /// sleep before retrying. The wait is always at least one millisecond,
    /// so retrying cannot spin.
    pub fn acquire_step(&mut self, now: u64) -> (outcome: AcquireOutcome)
        requires
            old(self).wf(),
        ensures
            final(self).wf(),
            *final(self) == spec_op(*old(self), now).0,
            outcome is Acquired <==> spec_op(*old(self), now).1,
            outcome matches AcquireOutcome::Wait { ms } ==> ms == spec_wait_ms(
                spec_refill(*old(self), now)) && ms >= 1,
    {
        proof {
            lemma_op_wf(*old(self), now);
        }
        self.refill(now);
        if self.tokens >= TOKEN_SCALE {
            self.tokens = self.tokens - TOKEN_SCALE;
            AcquireOutcome::Acquired
        } else {
            let deficit: u64 = TOKEN_SCALE - self.tokens;
            let num: u64 = deficit * 1000;
            let q: u64 = num / self.refill_rate;
            let rem: u64 = num % self.refill_rate;
            let ms: u64 = if rem == 0 {
                q
            } else {
                proof {
                    lemma_div_nonincreasing(num as int, self.refill_rate as int);
                    lemma_div_pos_is_pos(num as int, self.refill_rate as int);
                }
                q + 1
            };
            proof {
                if ms == 0 {
                    lemma_fundamental_div_mod(num as int, self.refill_rate as int);
                }
            }
            AcquireOutcome::Wait { ms }
        }
    }
}

/// The state a sequence of operations, one instant each, leaves the
/// limiter in.
pub open spec fn spec_run(s: RateLimiter, times: Seq<u64>) -> RateLimiter
    decreases times.len(),
{
    if times.len() == 0 {
        s
    } else {
        spec_run(spec_op(s, times[0]).0, times.drop_first())
    }
}

/// How many of the operations in `times` were granted a token.
pub open spec fn spec_grants(s: RateLimiter, times: Seq<u64>) -> int
    decreases times.len(),
{
    if times.len() == 0 {
        0
    } else {
        (if spec_op(s, times[0]).1 {
            1int
        } else {
            0int
        }) + spec_grants(spec_op(s, times[0]).0, times.drop_first())
    }
}

/// Law: the token count is bounded. For every limiter with a positive rate
/// and every sequence of operations, the bucket afterwards holds between 0
/// and its capacity, and neither capacity nor rate have moved.
pub proof fn lemma_tokens_bounded(s: RateLimiter, times: Seq<u64>)
    requires
        s.wf(),
    ensures
        spec_run(s, times).wf(),
        0 <= spec_run(s, times).tokens <= s.max_tokens,
        spec_run(s, times).max_tokens == s.max_tokens,
        spec_run(s, times).refill_rate == s.refill_rate,
        spec_run(s, times).last_refill >= s.last_refill,
    decreases times.len(),
{
    if times.len() > 0 {
        lemma_op_wf(s, times[0]);
        lemma_tokens_bounded(spec_op(s, times[0]).0, times.drop_first());
    }
}

proof fn lemma_div_superadd(a: int, b: int, c: int)
    requires
        a >= 0,
        b >= 0,
        c > 0,
    ensures
        a / c + b / c <= (a + b) / c,
{
    lemma_fundamental_div_mod(a, c);
    lemma_fundamental_div_mod(b, c);
    lemma_fundamental_div_mod(a + b, c);
    lemma_mod_division_less_than_divisor(a, c);
    lemma_mod_division_less_than_divisor(b, c);
    lemma_mod_division_less_than_divisor(a + b, c);
    let q = (a + b) / c;
    let s = a / c + b / c;
    if q < s {
        assert(false) by (nonlinear_arith)
            requires
                a == c * (a / c) + a % c,
                b == c * (b / c) + b % c,
                a + b == c * q + (a + b) % c,
                s == a / c + b / c,
                q <= s - 1,
                0 <= a % c,
                0 <= b % c,
                (a + b) % c < c,
                c > 0,
        ;
    }
}

proof fn lemma_op_budget(s: RateLimiter, now: u64)
    requires
        s.wf(),
    ensures
        spec_op(s, now).0.tokens + (if spec_op(s, now).1 {
            TOKEN_SCALE as int
        } else {
            0int
        }) <= s.tokens + (spec_op(s, now).0.last_refill - s.last_refill) * s.refill_rate / 1000,
{
    lemma_refill_wf(s, now);
    let e = spec_elapsed(s, now);
    assert(e * s.refill_rate >= 0) by (nonlinear_arith)
        requires
            e >= 0,
            s.refill_rate >= 0,
    ;
    assert(spec_op(s, now).0.last_refill - s.last_refill == e);
}

/// Law: long-run throughput is bounded by the refill rate plus one burst.
/// Over any sequence of operations, the micro-tokens granted never exceed
/// what the bucket held at the start plus what the elapsed time could
/// refill — so over a window of `t` milliseconds at most
/// `max_tokens + t · refill_rate / 1000` micro-tokens are granted.
pub proof fn lemma_throughput_bounded(s: RateLimiter, times: Seq<u64>)
    requires
        s.wf(),
    ensures
        (TOKEN_SCALE as int) * spec_grants(s, times) + spec_run(s, times).tokens <= s.tokens + (
        spec_run(s, times).last_refill - s.last_refill) * s.refill_rate / 1000,
        (TOKEN_SCALE as int) * spec_grants(s, times) <= s.max_tokens + (spec_run(s,
        times).last_refill - s.last_refill) * s.refill_rate / 1000,
        spec_grants(s, times) >= 0,
    decreases times.len(),
{
    if times.len() == 0 {
        assert((spec_run(s, times).last_refill - s.last_refill) * s.refill_rate == 0) by (
        nonlinear_arith)
            requires
                spec_run(s, times).last_refill == s.last_refill,
        ;
    } else {
        let now = times[0];
        let (s1, g) = spec_op(s, now);
        lemma_op_wf(s, now);
        lemma_op_budget(s, now);
        lemma_throughput_bounded(s1, times.drop_first());
        lemma_tokens_bounded(s1, times.drop_first());
        let sf = spec_run(s, times);
        let e1 = s1.last_refill - s.last_refill;
        let e2 = sf.last_refill - s1.last_refill;
        assert(e1 * s.refill_rate >= 0 && e2 * s.refill_rate >= 0 && (e1 + e2) * s.refill_rate
            == e1 * s.refill_rate + e2 * s.refill_rate) by (nonlinear_arith)
            requires
                e1 >= 0,
                e2 >= 0,
                s.refill_rate >= 0,
        ;
        lemma_div_superadd(e1 * s.refill_rate, e2 * s.refill_rate, 1000);
        assert(spec_grants(s, times) == (if g {
            1int
        } else {
            0int
        }) + spec_grants(s1, times.drop_first()));
    }
}

/// Law: the advised wait suffices. When the bucket can hold a whole token
/// and an operation at `now` was refused, retrying after the advised wait
/// is granted — absent other consumers, an acquire suspends for one wait
/// round at most.
pub proof fn lemma_wait_suffices(s: RateLimiter, now: u64)
    requires
        s.wf(),
        s.max_tokens >= TOKEN_SCALE,
        now >= s.last_refill,
        !spec_op(s, now).1,
        now + spec_wait_ms(spec_refill(s, now)) <= u64::MAX,
    ensures
        spec_op(spec_op(s, now).0, (now + spec_wait_ms(spec_refill(s, now))) as u64).1,
{
    let r = spec_refill(s, now);
    lemma_refill_wf(s, now);
    let d = TOKEN_SCALE - r.tokens;
    let num = d * 1000;
    let rate = r.refill_rate as int;
    let ms = spec_wait_ms(r);
    lemma_fundamental_div_mod(num, rate);
    lemma_mod_division_less_than_divisor(num, rate);
    // The advised wait is the exact ceiling, so ms * rate covers the
    // deficit.
    assert(ms * rate >= num) by (nonlinear_arith)
        requires
            num == rate * (num / rate) + num % rate,
            0 <= num % rate < rate,
            ms == if num % rate == 0 {
                num / rate
            } else {
                num / rate + 1
            },
    ;
    lemma_div_is_ordered(num, ms * rate, 1000);
    lemma_div_by_multiple(d, 1000);
    let again = spec_refill(r, (now + ms) as u64);
    assert(spec_elapsed(r, (now + ms) as u64) == ms || ms == 0);
    if ms == 0 {
        assert(num <= 0);
    }
    assert(again.tokens >= TOKEN_SCALE);
}

/// Law: a freshly drained bucket grants nothing. If the bucket holds less
/// than one token and no time has passed since its last refill, an
/// operation is not granted and leaves the state unchanged.
pub proof fn lemma_drained_bucket_denies(s: RateLimiter, now: u64)
    requires
        s.wf(),
        s.tokens < TOKEN_SCALE,
        now <= s.last_refill,
    ensures
        !spec_op(s, now).1,
        spec_op(s, now).0 == s,
{
    assert(spec_elapsed(s, now) == 0);
    assert(0int * s.refill_rate == 0) by (nonlinear_arith);
    lemma_div_of0(1000);
}

} // verus!
