//! A token bucket that rations hedged publish attempts.
use vstd::prelude::*;

verus! {

/// Fixed-point scale: one whole token is `SCALE` scaled units.
pub const SCALE: u32 = 1000;

/// A token bucket with a fixed fractional scaling factor of 1000.
///
/// Starts empty (0 tokens). Successful requests refill fractional tokens, and
/// hedged attempts decrement 1 whole token (1000 scaled units) when available.
pub struct TokenBucket {
    tokens: u32,
    scaled_max_tokens: u32,
    scaled_refill_ratio: u32,
}

/// The smaller of two integers.
pub open spec fn min_int(a: int, b: int) -> int {
    if a <= b { a } else { b }
}

/// Balance after one refill: `tokens + ratio`, capped at `max`.
pub open spec fn refilled(tokens: int, ratio: int, max: int) -> int {
    min_int(tokens + ratio, max)
}

/// Balance after `count` consecutive refills.
pub open spec fn refilled_times(tokens: int, ratio: int, max: int, count: nat) -> int
    decreases count,
{
    if count == 0 {
        tokens
    } else {
        refilled(refilled_times(tokens, ratio, max, (count - 1) as nat), ratio, max)
    }
}

/// Whether an acquire succeeds on a balance.
pub open spec fn can_acquire(tokens: int) -> bool {
    tokens >= SCALE
}

/// Balance after one acquire attempt.
pub open spec fn acquired(tokens: int) -> int {
    if can_acquire(tokens) { tokens - SCALE } else { tokens }
}

/// Number of successful acquires among `attempts` consecutive attempts.
pub open spec fn successful_acquires(tokens: int, attempts: nat) -> nat
    decreases attempts,
{
    if attempts == 0 {
        0
    } else if can_acquire(tokens) {
        1 + successful_acquires(tokens - SCALE, (attempts - 1) as nat)
    } else {
        0
    }
}

/// `max_tokens * SCALE`, saturating at `u32::MAX`.
pub open spec fn saturating_scale(max_tokens: u32) -> u32 {
    if max_tokens * SCALE > u32::MAX { u32::MAX } else { (max_tokens * SCALE) as u32 }
}

impl TokenBucket {
    /// Current balance, in scaled units.
    pub closed spec fn tokens(&self) -> u32 { self.tokens }

    /// Upper bound of the balance, in scaled units.
    pub closed spec fn scaled_max_tokens(&self) -> u32 { self.scaled_max_tokens }

    /// Scaled units added by one refill.
    pub closed spec fn scaled_refill_ratio(&self) -> u32 { self.scaled_refill_ratio }

    /// The balance never exceeds its cap.
    pub open spec fn wf(&self) -> bool {
        self.tokens() <= self.scaled_max_tokens()
    }

    /// Creates a new, empty bucket.
    pub fn new(max_tokens: u32, scaled_refill_ratio: u32) -> (bucket: Self)
        ensures
            bucket.wf(),
            bucket.tokens() == 0,
            bucket.scaled_max_tokens() == saturating_scale(max_tokens),
            bucket.scaled_refill_ratio() == scaled_refill_ratio,
    {
        let scaled_max_tokens = match max_tokens.checked_mul(SCALE) {
            Some(v) => v,
            None => u32::MAX,
        };
        TokenBucket { tokens: 0, scaled_max_tokens, scaled_refill_ratio }
    }

    /// Attempts to acquire 1 token (1000 scaled units).
    ///
    /// Returns `true` and decrements 1000 if balance >= 1000, otherwise returns `false`.
    pub fn try_acquire(&mut self) -> (acquired_one: bool)
        requires
            old(self).wf(),
        ensures
            final(self).wf(),
            acquired_one == can_acquire(old(self).tokens() as int),
            final(self).tokens() == acquired(old(self).tokens() as int),
            final(self).scaled_max_tokens() == old(self).scaled_max_tokens(),
            final(self).scaled_refill_ratio() == old(self).scaled_refill_ratio(),
    {
        if self.tokens >= SCALE {
            self.tokens = self.tokens - SCALE;
            true
        } else {
            false
        }
    }

    /// Increments the token balance by the scaled refill ratio, up to the scaled max tokens.
    pub fn refill(&mut self)
        requires
            old(self).wf(),
        ensures
            final(self).wf(),
            final(self).tokens() == refilled(
                old(self).tokens() as int,
                old(self).scaled_refill_ratio() as int,
                old(self).scaled_max_tokens() as int,
            ),
            final(self).scaled_max_tokens() == old(self).scaled_max_tokens(),
            final(self).scaled_refill_ratio() == old(self).scaled_refill_ratio(),
    {
        let sum = self.tokens.saturating_add(self.scaled_refill_ratio);
        self.tokens = if sum < self.scaled_max_tokens { sum } else { self.scaled_max_tokens };
    }

    /// The current balance in scaled units.
    pub fn available_scaled_tokens(&self) -> (tokens: u32)
        ensures
            tokens == self.tokens(),
    {
        self.tokens
    }
}

/// Refilling `count` times from a balance within the cap yields the balance plus
/// `count` refill amounts, capped at the maximum.
pub proof fn lemma_refilled_times(tokens: int, ratio: int, max: int, count: nat)
    requires
        0 <= tokens <= max,
        0 <= ratio,
    ensures
        refilled_times(tokens, ratio, max, count) == min_int(tokens + count * ratio, max),
    decreases count,
{
    if count > 0 {
        lemma_refilled_times(tokens, ratio, max, (count - 1) as nat);
        assert((count - 1) * ratio + ratio == count * ratio) by (nonlinear_arith);
    } else {
        assert(count * ratio == 0) by (nonlinear_arith)
            requires
                count == 0,
        ;
    }
}

/// Law: a bucket that starts empty holds `min(count * ratio, max)` scaled units
/// after `count` refills, so it never holds more than its cap.
pub proof fn lemma_refills_from_empty(ratio: u32, max: u32, count: nat)
    ensures
        refilled_times(0, ratio as int, max as int, count) == min_int(count * ratio, max as int),
        refilled_times(0, ratio as int, max as int, count) <= max,
{
    lemma_refilled_times(0, ratio as int, max as int, count);
}

/// Law: of `attempts` consecutive acquires on a balance of `tokens` scaled units,
/// exactly `min(attempts, tokens / 1000)` succeed.
pub proof fn lemma_successful_acquires(tokens: int, attempts: nat)
    requires
        0 <= tokens,
    ensures
        successful_acquires(tokens, attempts) == if attempts <= tokens / (SCALE as int) {
            attempts as int
        } else {
            tokens / (SCALE as int)
        },
    decreases attempts,
{
    if attempts > 0 && can_acquire(tokens) {
        lemma_successful_acquires(tokens - SCALE, (attempts - 1) as nat);
        assert((tokens - SCALE) / (SCALE as int) == tokens / (SCALE as int) - 1);
    } else if attempts > 0 {
        assert(tokens / (SCALE as int) == 0);
    }
}

} // verus!
