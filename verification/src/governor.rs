//! Rate-limit governors for the two registries.
//!
//! The primary registry reports its own limit with every response; its
//! governor remembers the last report. The secondary registry is guarded
//! by a token bucket. Time is a count of milliseconds that the caller
//! reads from a monotonic clock; tokens are counted in millionths.

use vstd::prelude::*;
use crate::text::{chars_of, parse_decimal, decimal_number};

verus! {

/// Requests assumed to be left before the first response has been seen.
pub const INITIAL_REMAINING: u32 = 300;

/// With fewer requests left than this, a caller waits for the window to
/// reset before it sends.
pub const BLOCK_BELOW: u32 = 5;

/// With no more requests left than this, the registry counts as without
/// capacity until the window resets.
pub const CAPACITY_ABOVE: u32 = 10;

/// What the primary registry last said about its rate limit: how many
/// requests are left in the current window and when the window resets.
#[derive(Debug, PartialEq, Eq)]
pub struct ModrinthRateLimit {
    pub remaining: u32,
    pub reset_at: u64,
}

/// The registry has capacity when more than ten requests are left or the
/// window has reset.
pub open spec fn spec_has_capacity(state: ModrinthRateLimit, now: u64) -> bool {
    state.remaining > CAPACITY_ABOVE || now >= state.reset_at
}

/// How long a caller has to wait before sending: until the reset when
/// fewer than five requests are left and the reset lies ahead.
pub open spec fn spec_wait(state: ModrinthRateLimit, now: u64) -> Option<u64> {
    if state.remaining < BLOCK_BELOW && state.reset_at > now {
        Some((state.reset_at - now) as u64)
    } else {
        None
    }
}

/// `now` plus `secs` seconds in milliseconds, or the largest instant when
/// that is out of range.
pub open spec fn instant_after(now: u64, secs: u64) -> u64 {
    if now + secs * 1000 <= u64::MAX {
        (now + secs * 1000) as u64
    } else {
        u64::MAX
    }
}

/// The state after a response that carried the two rate-limit headers
/// `remaining` and `reset`, given as their text. The state changes only
/// when both are present and both are decimal numbers in range.
pub open spec fn spec_update(
    state: ModrinthRateLimit,
    remaining: Option<Seq<char>>,
    reset: Option<Seq<char>>,
    now: u64,
) -> ModrinthRateLimit {
    match (remaining, reset) {
        (Some(rem), Some(secs)) => match (decimal_number(rem), decimal_number(secs)) {
            (Some(r), Some(s)) => if r <= u32::MAX && s <= u64::MAX {
                ModrinthRateLimit { remaining: r as u32, reset_at: instant_after(now, s as u64) }
            } else {
                state
            },
            _ => state,
        },
        _ => state,
    }
}

impl ModrinthRateLimit {
    /// The state before any response: a full window that resets now.
    pub fn new(now: u64) -> (state: Self)
        ensures
            state == (ModrinthRateLimit { remaining: INITIAL_REMAINING, reset_at: now }),
    {
        ModrinthRateLimit { remaining: INITIAL_REMAINING, reset_at: now }
    }

    /// How many milliseconds a caller has to wait before it may send.
    pub fn wait_for_ratelimit(&self, now: u64) -> (wait: Option<u64>)
        ensures
            wait == spec_wait(*self, now),
    {
        if self.remaining < BLOCK_BELOW && self.reset_at > now {
            Some(self.reset_at - now)
        } else {
            None
        }
    }

    /// Records the rate-limit headers of a response received at `now`.
    pub fn update_ratelimit(&mut self, remaining: Option<&str>, reset: Option<&str>, now: u64)
        ensures
            *final(self) == spec_update(
                *old(self),
                match remaining {
                    Some(s) => Some(s@),
                    None => None,
                },
                match reset {
                    Some(s) => Some(s@),
                    None => None,
                },
                now,
            ),
    {
        if let Some(rem_text) = remaining {
            if let Some(reset_text) = reset {
                let rem = parse_decimal(chars_of(rem_text).as_slice());
                let secs = parse_decimal(chars_of(reset_text).as_slice());
                if let Some(r) = rem {
                    if let Some(s) = secs {
                        if r <= u32::MAX as u64 {
                            self.remaining = r as u32;
                            self.reset_at = after_secs(now, s);
                        }
                    }
                }
            }
        }
    }
}

/// The instant `secs` seconds after `now`, saturating.
pub fn after_secs(now: u64, secs: u64) -> (at: u64)
    ensures
        at == instant_after(now, secs),
{
    match secs.checked_mul(1000) {
        Some(ms) => match now.checked_add(ms) {
            Some(at) => at,
            None => u64::MAX,
        },
        None => u64::MAX,
    }
}

/// Whether the primary registry has capacity at `now`, without waiting.
pub fn has_capacity(state: &ModrinthRateLimit, now: u64) -> (b: bool)
    ensures
        b == spec_has_capacity(*state, now),
{
    state.remaining > CAPACITY_ABOVE || now >= state.reset_at
}

/// One permit, in millionths of a token.
pub const TOKEN: u64 = 1_000_000;

/// The largest number of permits per minute a bucket can be made for.
pub const MAX_PER_MINUTE: u64 = 1_000_000;

/// A token bucket: `tokens` millionths of a permit are available, at most
/// `max_tokens`; `refill_rate` millionths are added per millisecond since
/// `last_refill`.
#[derive(Debug, PartialEq, Eq)]
pub struct TokenBucket {
    tokens: u64,
    max_tokens: u64,
    refill_rate: u64,
    last_refill: u64,
}

/// Mathematical value of a [`TokenBucket`].
pub ghost struct BucketView {
    pub tokens: nat,
    pub max_tokens: nat,
    pub refill_rate: nat,
    pub last_refill: nat,
}

/// The smaller of two numbers.
pub open spec fn min_nat(a: nat, b: nat) -> nat {
    if a <= b {
        a
    } else {
        b
    }
}

/// The bucket after the tokens earned up to `now` were added, capped at
/// the bucket's size. A clock that went backwards earns nothing.
pub open spec fn refilled(b: BucketView, now: nat) -> BucketView {
    let elapsed: nat = if now >= b.last_refill {
        (now - b.last_refill) as nat
    } else {
        0
    };
    BucketView {
        tokens: min_nat(b.tokens + elapsed * b.refill_rate, b.max_tokens),
        max_tokens: b.max_tokens,
        refill_rate: b.refill_rate,
        last_refill: now,
    }
}

/// The milliseconds after which a bucket holding `tokens` < one permit
/// holds a whole one: the missing amount over the rate, rounded up.
pub open spec fn wait_for_token(tokens: nat, refill_rate: nat) -> nat
    recommends
        tokens < TOKEN,
        refill_rate > 0,
{
    ((TOKEN - tokens + refill_rate - 1) / refill_rate as int) as nat
}

/// The bucket after an attempt to take one permit at `now`.
pub open spec fn after_acquire(b: BucketView, now: nat) -> BucketView {
    let r = refilled(b, now);
    if r.tokens >= TOKEN {
        BucketView { tokens: (r.tokens - TOKEN) as nat, ..r }
    } else {
        r
    }
}

/// What an attempt to take one permit at `now` answers: nothing when the
/// permit was granted, else the milliseconds to wait for the next one.
pub open spec fn acquire_wait(b: BucketView, now: nat) -> Option<nat> {
    let r = refilled(b, now);
    if r.tokens >= TOKEN {
        None
    } else {
        Some(wait_for_token(r.tokens, r.refill_rate))
    }
}

impl View for TokenBucket {
    type V = BucketView;

    closed spec fn view(&self) -> BucketView {
        BucketView {
            tokens: self.tokens as nat,
            max_tokens: self.max_tokens as nat,
            refill_rate: self.refill_rate as nat,
            last_refill: self.last_refill as nat,
        }
    }
}

/// A bucket never holds more than its size, its size is at least one
/// permit, and it refills.
pub open spec fn bucket_wf(b: BucketView) -> bool {
    &&& b.tokens <= b.max_tokens
    &&& TOKEN <= b.max_tokens <= MAX_PER_MINUTE * TOKEN
    &&& 0 < b.refill_rate <= b.max_tokens
}

impl TokenBucket {
    /// The bucket is within its bounds.
    pub open spec fn wf(&self) -> bool {
        bucket_wf(self@)
    }

    /// A full bucket of `max_per_minute` permits that earns them back
    /// evenly over a minute.
    pub fn new(max_per_minute: u64, now: u64) -> (b: Self)
        requires
            1 <= max_per_minute <= MAX_PER_MINUTE,
        ensures
            b.wf(),
            b@ == (BucketView {
                tokens: max_per_minute as nat * TOKEN as nat,
                max_tokens: max_per_minute as nat * TOKEN as nat,
                refill_rate: (max_per_minute as nat * 1000 / 60) as nat,
                last_refill: now as nat,
            }),
    {
        let max_tokens: u64 = max_per_minute * TOKEN;
        TokenBucket {
            tokens: max_tokens,
            max_tokens,
            refill_rate: max_per_minute * 1000 / 60,
            last_refill: now,
        }
    }

    /// Adds the tokens earned since the last refill.
    pub fn refill(&mut self, now: u64)
        requires
            old(self).wf(),
        ensures
            final(self).wf(),
            final(self)@ == refilled(old(self)@, now as nat),
    {
        let elapsed: u64 = if now >= self.last_refill {
            now - self.last_refill
        } else {
            0
        };
        let room: u64 = self.max_tokens - self.tokens;
        // The bucket is full again once `elapsed * refill_rate >= room`.
        if elapsed >= room / self.refill_rate + 1 {
            assert(elapsed * self.refill_rate >= room) by (nonlinear_arith)
                requires
                    elapsed >= room / self.refill_rate + 1,
                    self.refill_rate > 0,
            ;
            self.tokens = self.max_tokens;
        } else {
            assert(elapsed * self.refill_rate <= room + self.refill_rate) by (nonlinear_arith)
                requires
                    elapsed <= room / self.refill_rate,
                    self.refill_rate > 0,
            ;
            let earned: u64 = elapsed * self.refill_rate;
            if earned >= room {
                self.tokens = self.max_tokens;
            } else {
                self.tokens = self.tokens + earned;
            }
        }
        self.last_refill = now;
    }

    /// Tries to take one permit at `now`. Answers `None` when the permit
    /// was granted, else the milliseconds after which one will be there.
    pub fn try_acquire(&mut self, now: u64) -> (wait: Option<u64>)
        requires
            old(self).wf(),
        ensures
            final(self).wf(),
            final(self)@ == after_acquire(old(self)@, now as nat),
            match wait {
                Some(ms) => acquire_wait(old(self)@, now as nat) == Some(ms as nat),
                None => acquire_wait(old(self)@, now as nat) is None,
            },
    {
        self.refill(now);
        if self.tokens >= TOKEN {
            self.tokens = self.tokens - TOKEN;
            None
        } else {
            Some((TOKEN - self.tokens + self.refill_rate - 1) / self.refill_rate)
        }
    }

    /// Whether a permit could be taken at `now`.
    pub fn has_capacity(&self, now: u64) -> (b: bool)
        requires
            self.wf(),
        ensures
            b == (acquire_wait(self@, now as nat) is None),
    {
        let elapsed: u64 = if now >= self.last_refill {
            now - self.last_refill
        } else {
            0
        };
        if self.tokens >= TOKEN {
            assert(self.tokens + elapsed * self.refill_rate >= TOKEN) by (nonlinear_arith)
                requires
                    self.tokens >= TOKEN,
                    elapsed >= 0,
                    self.refill_rate >= 0,
            ;
            true
        } else {
            let missing: u64 = TOKEN - self.tokens;
            // enough when `elapsed * refill_rate >= missing`
            let needed: u64 = (missing + self.refill_rate - 1) / self.refill_rate;
            proof {
                lemma_ceil_div(missing as nat, self.refill_rate as nat, elapsed as nat);
            }
            elapsed >= needed
        }
    }
}

/// `n * d >= m` exactly when `n` is at least `m / d` rounded up.
pub proof fn lemma_ceil_div(m: nat, d: nat, n: nat)
    requires
        d > 0,
    ensures
        n * d >= m <==> n >= (m + d - 1) / d as int,
{
    let q = (m + d - 1) / d as int;
    assert(q * d <= m + d - 1 < q * d + d) by (nonlinear_arith)
        requires
            q == (m + d - 1) / d as int,
            d > 0,
    ;
    if n >= q {
        assert(n * d >= q * d) by (nonlinear_arith)
            requires
                n >= q,
                d > 0,
        ;
    } else {
        assert(n * d <= (q - 1) * d) by (nonlinear_arith)
            requires
                n <= q - 1,
                d > 0,
        ;
        assert((q - 1) * d == q * d - d) by (nonlinear_arith);
    }
}

/// The secondary registry can be used exactly when a credential is set.
pub fn is_available(credential: &str) -> (b: bool)
    ensures
        b == (credential@.len() > 0),
{
    credential.unicode_len() > 0
}

/// A bucket that refused a permit grants one to the caller that comes back
/// after the wait it was told, as long as nobody else took it.
pub proof fn lemma_wait_is_enough(b: BucketView, now: nat)
    requires
        bucket_wf(b),
        acquire_wait(b, now) is Some,
    ensures
        acquire_wait(after_acquire(b, now), now + acquire_wait(b, now).unwrap()) is None,
{
    let r = refilled(b, now);
    let w = wait_for_token(r.tokens, r.refill_rate);
    lemma_ceil_div((TOKEN - r.tokens) as nat, r.refill_rate, w);
    assert(after_acquire(b, now) == r);
}

/// Refilling and taking permits keep a bucket within its bounds.
pub proof fn lemma_bucket_bounds(b: BucketView, now: nat)
    requires
        bucket_wf(b),
    ensures
        bucket_wf(refilled(b, now)),
        bucket_wf(after_acquire(b, now)),
{
}

} // verus!
