use vstd::arithmetic::div_mod::lemma_fundamental_div_mod;
use vstd::prelude::*;

verus! {

/// One megabit, the unit the bandwidth argument is stated in.
pub const M_BIT_PER_SECOND: u64 = 1000000;

/// The precision threshold: the scaled rate is raised above one terabit per
/// second so the fill-rate computation stays in a numerically stable range
/// over the whole supported span of bandwidths.
pub const PRECISION_THRESHOLD: u64 = 1000000000000;

/// Bucket capacity in unscaled token units; the real capacity is this times
/// the limiter's scale factor, bounding the admissible burst independently
/// of the configured rate.
pub const CAPACITY_TOKENS: u64 = 1024 * 2048 * 8;

/// The scale factor is always one of the powers of ten up to one million.
pub open spec fn spec_is_pow10_scale(scale: u64) -> bool {
    ||| scale == 1
    ||| scale == 10
    ||| scale == 100
    ||| scale == 1000
    ||| scale == 10000
    ||| scale == 100000
    ||| scale == 1000000
}

/// A token-bucket admission gate, owned and mutated by exactly one worker
/// thread. Tokens are scaled bits: a power-of-ten scale factor keeps the
/// fill rate above [`PRECISION_THRESHOLD`] so that low bandwidths lose no
/// precision, and token costs are scaled by the same factor.
pub struct RateLimiter {
    rate_num: u64,
    rate_den: u64,
    scale: u64,
    last_tsc: u64,
    capacity: u64,
    available_tokens: u64,
}

impl RateLimiter {
    /// Scaled bits per second: the numerator of the fill rate.
    pub closed spec fn spec_rate_num(&self) -> u64 {
        self.rate_num
    }

    /// Timer ticks per second: the denominator of the fill rate.
    pub closed spec fn spec_rate_den(&self) -> u64 {
        self.rate_den
    }

    /// The power-of-ten precision scale factor.
    pub closed spec fn spec_scale(&self) -> u64 {
        self.scale
    }

    /// The timestamp of the last refill.
    pub closed spec fn spec_last_tsc(&self) -> u64 {
        self.last_tsc
    }

    /// The bucket capacity in scaled token units.
    pub closed spec fn spec_capacity(&self) -> u64 {
        self.capacity
    }

    /// The tokens currently available.
    pub closed spec fn spec_available(&self) -> u64 {
        self.available_tokens
    }

    /// Structural invariant: the bucket never holds more than its capacity,
    /// the rate is a well-defined positive rational, and every quantity
    /// stays inside the range the admission arithmetic needs.
    pub closed spec fn wf(&self) -> bool {
        &&& self.available_tokens <= self.capacity
        &&& self.rate_den >= 1
        &&& 1 <= self.scale <= 10000000
        &&& self.capacity == CAPACITY_TOKENS * self.scale
        &&& self.rate_num <= 4294967295000000
    }

    /// The scaled token cost of sending `tokens` bytes: eight bits per byte
    /// times the precision scale.
    pub open spec fn spec_cost(&self, tokens: u64) -> int {
        tokens * 8 * self.spec_scale()
    }

    /// The tokens accrued between the last refill and `tsc`: elapsed ticks
    /// times the rate, rounded to the nearest integer.
    pub open spec fn spec_refill(&self, tsc: u64) -> int
        recommends
            tsc >= self.spec_last_tsc(),
            self.spec_rate_den() >= 1,
    {
        ((tsc - self.spec_last_tsc()) * self.spec_rate_num() + self.spec_rate_den() / 2)
            / (self.spec_rate_den() as int)
    }

    /// The tokens available after refilling at `tsc`, capped at capacity.
    pub open spec fn spec_avail_after(&self, tsc: u64) -> int {
        vstd::math::min(self.spec_capacity() as int, self.spec_available() + self.spec_refill(tsc))
    }

    /// Whether a send of `tokens` bytes at `tsc` is admitted.
    pub open spec fn spec_admits(&self, tsc: u64, tokens: u64) -> bool {
        self.spec_avail_after(tsc) >= self.spec_cost(tokens)
    }

    /// Builds a limiter for `bandwidth` megabits per second against a timer
    /// running at `ticks_per_sec` ticks per second. The target rate is
    /// multiplied by ten until it clears the precision threshold; the
    /// resulting scale also stretches the fixed bucket capacity and every
    /// token cost.
    pub fn new(bandwidth: u32, ticks_per_sec: u64) -> (r: RateLimiter)
        requires
            bandwidth >= 1,
            ticks_per_sec >= 1,
        ensures
            r.wf(),
            spec_is_pow10_scale(r.spec_scale()),
            r.spec_rate_num() == bandwidth * M_BIT_PER_SECOND * r.spec_scale(),
            r.spec_rate_num() >= PRECISION_THRESHOLD,
            r.spec_scale() == 1 || r.spec_rate_num() < 10 * PRECISION_THRESHOLD,
            r.spec_rate_den() == ticks_per_sec,
            r.spec_capacity() == CAPACITY_TOKENS * r.spec_scale(),
            r.spec_last_tsc() == 0,
            r.spec_available() == 0,
    {
        let mut bits_per_second: u64 = bandwidth as u64 * M_BIT_PER_SECOND;
        let mut scale: u64 = 1;

        while bits_per_second < PRECISION_THRESHOLD
            invariant
                bandwidth >= 1,
                scale >= 1,
                spec_is_pow10_scale(scale),
                scale < 1000000 || bits_per_second >= PRECISION_THRESHOLD,
                bits_per_second == bandwidth * M_BIT_PER_SECOND * scale,
                scale * M_BIT_PER_SECOND <= bits_per_second,
                scale == 1 || bits_per_second < 10 * PRECISION_THRESHOLD,
            decreases 10 * PRECISION_THRESHOLD - bits_per_second,
        {
            proof {
                assert(bandwidth * M_BIT_PER_SECOND * scale * 10 == bandwidth * M_BIT_PER_SECOND
                    * (scale * 10)) by (nonlinear_arith);
                assert((scale * 10) * M_BIT_PER_SECOND == (scale * M_BIT_PER_SECOND) * 10)
                    by (nonlinear_arith);
            }
            bits_per_second = bits_per_second * 10;
            scale = scale * 10;
        }

        proof {
            assert(CAPACITY_TOKENS * scale <= u64::MAX) by (nonlinear_arith)
                requires
                    1 <= scale <= 10000000,
                    CAPACITY_TOKENS == 16777216u64,
            ;
        }
        let capacity = CAPACITY_TOKENS * scale;
        RateLimiter {
            rate_num: bits_per_second,
            rate_den: ticks_per_sec,
            scale,
            last_tsc: 0,
            capacity,
            available_tokens: 0,
        }
    }

    /// The timestamp of the last refill, for clamping a clock that has not
    /// advanced.
    pub fn last_tsc(&self) -> (r: u64)
        ensures
            r == self.spec_last_tsc(),
    {
        self.last_tsc
    }

    /// The bucket capacity in scaled token units.
    pub fn capacity(&self) -> (r: u64)
        ensures
            r == self.spec_capacity(),
    {
        self.capacity
    }

    /// The precision scale factor.
    pub fn scale(&self) -> (r: u64)
        ensures
            r == self.spec_scale(),
    {
        self.scale
    }

    /// The tokens currently in the bucket.
    pub fn available_tokens(&self) -> (r: u64)
        ensures
            r == self.spec_available(),
    {
        self.available_tokens
    }

    /// Refills the bucket for the ticks elapsed since the last call, capped
    /// at capacity, then admits the send and debits its cost exactly when
    /// enough tokens are available; a denied send debits nothing. The refill
    /// timestamp moves to `tsc` on every call, denials included, which is
    /// why only the owning thread may call this.
    pub fn can_send(&mut self, tsc: u64, tokens: u64) -> (r: bool)
        requires
            old(self).wf(),
            tsc >= old(self).spec_last_tsc(),
        ensures
            final(self).wf(),
            r == old(self).spec_admits(tsc, tokens),
            final(self).spec_last_tsc() == tsc,
            final(self).spec_available() == (if r {
                old(self).spec_avail_after(tsc) - old(self).spec_cost(tokens)
            } else {
                old(self).spec_avail_after(tsc)
            }),
            final(self).spec_rate_num() == old(self).spec_rate_num(),
            final(self).spec_rate_den() == old(self).spec_rate_den(),
            final(self).spec_scale() == old(self).spec_scale(),
            final(self).spec_capacity() == old(self).spec_capacity(),
            spec_call_step(*old(self), *final(self), tsc, tokens),
    {
        proof {
            assert((tokens as int) * 8 * (self.scale as int) <= u128::MAX) by (nonlinear_arith)
                requires
                    tokens <= u64::MAX,
                    self.scale <= 10000000,
            ;
        }
        let cost: u128 = (tokens as u128) * 8 * (self.scale as u128);
        let elapsed: u64 = tsc - self.last_tsc;
        self.last_tsc = tsc;

        proof {
            assert((elapsed as int) * (self.rate_num as int) + (self.rate_den as int) / 2
                <= u128::MAX) by (nonlinear_arith)
                requires
                    elapsed <= u64::MAX,
                    self.rate_num <= 4294967295000000,
                    self.rate_den <= u64::MAX,
            ;
        }
        let increased: u128 = ((elapsed as u128) * (self.rate_num as u128) + (self.rate_den
            as u128) / 2) / (self.rate_den as u128);

        proof {
            let prod = (elapsed as int) * (self.rate_num as int);
            vstd::arithmetic::mul::lemma_mul_nonnegative(elapsed as int, self.rate_num as int);
            vstd::arithmetic::mul::lemma_mul_upper_bound(
                elapsed as int,
                u64::MAX as int,
                self.rate_num as int,
                4294967295000000int,
            );
            vstd::arithmetic::div_mod::lemma_div_nonincreasing(
                prod + (self.rate_den as int) / 2,
                self.rate_den as int,
            );
        }
        let refilled: u128 = self.available_tokens as u128 + increased;
        let new_avail: u64 = if refilled >= self.capacity as u128 {
            self.capacity
        } else {
            refilled as u64
        };
        self.available_tokens = new_avail;

        if (self.available_tokens as u128) < cost {
            false
        } else {
            self.available_tokens = self.available_tokens - cost as u64;
            true
        }
    }
}

/// No tokens accrue when no time passes: a refill at the very timestamp of
/// the last refill adds nothing, so repeated calls in a single instant only
/// drain the bucket.
pub proof fn lemma_no_refill_same_instant(st: &RateLimiter)
    requires
        st.wf(),
    ensures
        st.spec_refill(st.spec_last_tsc()) == 0,
        st.spec_avail_after(st.spec_last_tsc()) == st.spec_available(),
{
    let den = st.spec_rate_den() as int;
    assert((0 * st.spec_rate_num() + den / 2) / den == 0) by {
        assert(0 * st.spec_rate_num() == 0) by (nonlinear_arith);
        assert(den / 2 < den);
        assert((den / 2) / den == 0) by (nonlinear_arith)
            requires
                den >= 1,
        ;
    }
}

/// Exactly what one `can_send` call does to the limiter: the relation its
/// contract establishes between the state before and the state after.
pub open spec fn spec_call_step(pre: RateLimiter, post: RateLimiter, tsc: u64, tokens: u64) -> bool {
    &&& post.spec_last_tsc() == tsc
    &&& post.spec_available() == (if pre.spec_admits(tsc, tokens) {
        pre.spec_avail_after(tsc) - pre.spec_cost(tokens)
    } else {
        pre.spec_avail_after(tsc)
    })
    &&& post.spec_capacity() == pre.spec_capacity()
    &&& post.spec_scale() == pre.spec_scale()
    &&& post.spec_rate_num() == pre.spec_rate_num()
    &&& post.spec_rate_den() == pre.spec_rate_den()
}

/// The total cost the calls along a trace of limiter states admit, all at
/// one timestamp: `states[i]` is the state before the `i`-th call, which
/// asks to send `tokens[i]` bytes.
pub open spec fn spec_admitted_total(states: Seq<RateLimiter>, tsc: u64, tokens: Seq<u64>) -> int
    decreases tokens.len(),
{
    if tokens.len() == 0 || states.len() == 0 {
        0
    } else {
        (if states[0].spec_admits(tsc, tokens[0]) {
            states[0].spec_cost(tokens[0])
        } else {
            0
        }) + spec_admitted_total(states.drop_first(), tsc, tokens.drop_first())
    }
}

/// The burst bound: a chain of admission checks in a single instant, each
/// related to the next exactly as `can_send` relates its states, admits at
/// most one bucketful of tokens in total. No time passes, so nothing
/// accrues, and the capacity caps what was in hand.
pub proof fn lemma_burst_bound(states: Seq<RateLimiter>, tsc: u64, tokens: Seq<u64>)
    requires
        states.len() == tokens.len() + 1,
        forall|i: int| 0 <= i < states.len() ==> (#[trigger] states[i]).wf(),
        states[0].spec_last_tsc() == tsc,
        forall|i: int|
            0 <= i < tokens.len() ==> spec_call_step(states[i], states[i + 1], tsc, #[trigger] tokens[i]),
    ensures
        spec_admitted_total(states, tsc, tokens) <= states[0].spec_capacity(),
{
    lemma_same_instant_admitted_le_available(states, tsc, tokens);
}

/// Helper for the burst bound: at one instant the total admitted cost never
/// exceeds the tokens initially available.
proof fn lemma_same_instant_admitted_le_available(
    states: Seq<RateLimiter>,
    tsc: u64,
    tokens: Seq<u64>,
)
    requires
        states.len() == tokens.len() + 1,
        forall|i: int| 0 <= i < states.len() ==> (#[trigger] states[i]).wf(),
        states[0].spec_last_tsc() == tsc,
        forall|i: int|
            0 <= i < tokens.len() ==> spec_call_step(states[i], states[i + 1], tsc, #[trigger] tokens[i]),
    ensures
        spec_admitted_total(states, tsc, tokens) <= states[0].spec_available(),
    decreases tokens.len(),
{
    if tokens.len() > 0 {
        lemma_no_refill_same_instant(&states[0]);
        let rest_states = states.drop_first();
        let rest_tokens = tokens.drop_first();
        assert(spec_call_step(states[0], states[1], tsc, tokens[0]));
        assert forall|i: int| 0 <= i < rest_tokens.len() implies spec_call_step(
            rest_states[i],
            rest_states[i + 1],
            tsc,
            #[trigger] rest_tokens[i],
        ) by {
            assert(rest_tokens[i] == tokens[i + 1]);
            assert(spec_call_step(states[i + 1], states[i + 2], tsc, tokens[i + 1]));
            assert(rest_states[i] == states[i + 1]);
            assert(rest_states[i + 1] == states[i + 2]);
        }
        assert forall|i: int| 0 <= i < rest_states.len() implies (#[trigger] rest_states[i]).wf() by {
            assert(states[i + 1].wf());
        }
        lemma_same_instant_admitted_le_available(rest_states, tsc, rest_tokens);
    }
}

/// The total cost a chain of admission checks admits when each call may
/// come at its own timestamp: `states[i]` is the limiter before the `i`-th
/// call, made at `tscs[i]` for `tokens[i]` bytes.
pub open spec fn spec_trace_admitted(
    states: Seq<RateLimiter>,
    tscs: Seq<u64>,
    tokens: Seq<u64>,
) -> int
    decreases tokens.len(),
{
    if tokens.len() == 0 || states.len() == 0 || tscs.len() == 0 {
        0
    } else {
        (if states[0].spec_admits(tscs[0], tokens[0]) {
            states[0].spec_cost(tokens[0])
        } else {
            0
        }) + spec_trace_admitted(states.drop_first(), tscs.drop_first(), tokens.drop_first())
    }
}

/// The tokens that accrue along the same chain of calls.
pub open spec fn spec_trace_refills(states: Seq<RateLimiter>, tscs: Seq<u64>) -> int
    decreases tscs.len(),
{
    if tscs.len() == 0 || states.len() == 0 {
        0
    } else {
        states[0].spec_refill(tscs[0]) + spec_trace_refills(states.drop_first(), tscs.drop_first())
    }
}

/// The long-run bound: across any chain of admission checks, each related
/// to the next exactly as `can_send` relates its states, the total admitted
/// cost never exceeds the tokens initially in hand plus every token that
/// accrued. With `lemma_refill_rounds_to_rate` bounding each accrual by the
/// elapsed time times the rate plus rounding, the admitted rate converges
/// to the configured rate from above within the bucket and the rounding.
pub proof fn lemma_long_run_admitted_bound(
    states: Seq<RateLimiter>,
    tscs: Seq<u64>,
    tokens: Seq<u64>,
)
    requires
        states.len() == tokens.len() + 1,
        tscs.len() == tokens.len(),
        forall|i: int|
            0 <= i < tokens.len() ==> spec_call_step(
                states[i],
                states[i + 1],
                tscs[i],
                #[trigger] tokens[i],
            ),
    ensures
        spec_trace_admitted(states, tscs, tokens) <= states[0].spec_available()
            + spec_trace_refills(states, tscs),
    decreases tokens.len(),
{
    if tokens.len() > 0 {
        let rest_states = states.drop_first();
        let rest_tscs = tscs.drop_first();
        let rest_tokens = tokens.drop_first();
        assert(spec_call_step(states[0], states[1], tscs[0], tokens[0]));
        assert forall|i: int| 0 <= i < rest_tokens.len() implies spec_call_step(
            rest_states[i],
            rest_states[i + 1],
            rest_tscs[i],
            #[trigger] rest_tokens[i],
        ) by {
            assert(rest_tokens[i] == tokens[i + 1]);
            assert(spec_call_step(states[i + 1], states[i + 2], tscs[i + 1], tokens[i + 1]));
            assert(rest_states[i] == states[i + 1]);
            assert(rest_states[i + 1] == states[i + 2]);
            assert(rest_tscs[i] == tscs[i + 1]);
        }
        lemma_long_run_admitted_bound(rest_states, rest_tscs, rest_tokens);
    }
}

/// The tokens that overflowed the bucket along a chain of calls: at each
/// call, whatever the refill would have raised the bucket past its
/// capacity is lost.
pub open spec fn spec_trace_losses(states: Seq<RateLimiter>, tscs: Seq<u64>) -> int
    decreases tscs.len(),
{
    if tscs.len() == 0 || states.len() == 0 {
        0
    } else {
        let over = states[0].spec_available() + states[0].spec_refill(tscs[0]) - states[0].spec_capacity();
        (if over > 0 {
            over
        } else {
            0
        }) + spec_trace_losses(states.drop_first(), tscs.drop_first())
    }
}

/// Exact token accounting along any chain of admission checks: the
/// admitted total is the tokens initially in hand, plus everything that
/// accrued, minus what overflowed the bucket, minus what is left at the
/// end. Nothing else ever consumes or creates a token.
pub proof fn lemma_admitted_conservation(
    states: Seq<RateLimiter>,
    tscs: Seq<u64>,
    tokens: Seq<u64>,
)
    requires
        states.len() == tokens.len() + 1,
        tscs.len() == tokens.len(),
        forall|i: int|
            0 <= i < tokens.len() ==> spec_call_step(
                states[i],
                states[i + 1],
                tscs[i],
                #[trigger] tokens[i],
            ),
    ensures
        spec_trace_admitted(states, tscs, tokens) == states[0].spec_available()
            + spec_trace_refills(states, tscs) - spec_trace_losses(states, tscs)
            - states.last().spec_available(),
    decreases tokens.len(),
{
    if tokens.len() == 0 {
        assert(states.last() == states[0]);
    } else {
        let rest_states = states.drop_first();
        let rest_tscs = tscs.drop_first();
        let rest_tokens = tokens.drop_first();
        assert(spec_call_step(states[0], states[1], tscs[0], tokens[0]));
        assert forall|i: int| 0 <= i < rest_tokens.len() implies spec_call_step(
            rest_states[i],
            rest_states[i + 1],
            rest_tscs[i],
            #[trigger] rest_tokens[i],
        ) by {
            assert(rest_tokens[i] == tokens[i + 1]);
            assert(spec_call_step(states[i + 1], states[i + 2], tscs[i + 1], tokens[i + 1]));
            assert(rest_states[i] == states[i + 1]);
            assert(rest_states[i + 1] == states[i + 2]);
            assert(rest_tscs[i] == tscs[i + 1]);
        }
        lemma_admitted_conservation(rest_states, rest_tscs, rest_tokens);
        assert(rest_states.last() == states.last());
    }
}

/// The lower-bound half of the long-run convergence: on a stretch where no
/// refill overshoots the bucket, the admitted total lags the tokens that
/// accrued by at most one bucketful plus what is still in hand at the end,
/// however the admission checks fell.
pub proof fn lemma_long_run_admitted_lower_bound(
    states: Seq<RateLimiter>,
    tscs: Seq<u64>,
    tokens: Seq<u64>,
)
    requires
        states.len() == tokens.len() + 1,
        tscs.len() == tokens.len(),
        forall|i: int|
            0 <= i < tokens.len() ==> spec_call_step(
                states[i],
                states[i + 1],
                tscs[i],
                #[trigger] tokens[i],
            ),
        spec_trace_losses(states, tscs) == 0,
        states.last().wf(),
    ensures
        spec_trace_admitted(states, tscs, tokens) >= states[0].spec_available()
            + spec_trace_refills(states, tscs) - states.last().spec_capacity(),
{
    lemma_admitted_conservation(states, tscs, tokens);
}

/// The refill is the true rational amount `elapsed * rate` rounded to the
/// nearest whole token: it differs from the exact product by at most half a
/// denominator either way, the rounding error the rate converges within.
pub proof fn lemma_refill_rounds_to_rate(st: &RateLimiter, tsc: u64)
    requires
        st.wf(),
        tsc >= st.spec_last_tsc(),
    ensures
        st.spec_rate_den() * st.spec_refill(tsc) <= (tsc - st.spec_last_tsc())
            * st.spec_rate_num() + st.spec_rate_den() / 2,
        (tsc - st.spec_last_tsc()) * st.spec_rate_num() + st.spec_rate_den() / 2 < st.spec_rate_den()
            * (st.spec_refill(tsc) + 1),
{
    let den = st.spec_rate_den() as int;
    let x = (tsc - st.spec_last_tsc()) * st.spec_rate_num() + den / 2;
    let q = st.spec_refill(tsc);
    assert(x >= 0) by {
        assert((tsc - st.spec_last_tsc()) * st.spec_rate_num() >= 0) by (nonlinear_arith)
            requires
                tsc >= st.spec_last_tsc(),
        ;
    }
    lemma_fundamental_div_mod(x, den);
    assert(den * q <= x && x < den * (q + 1)) by (nonlinear_arith)
        requires
            den >= 1,
            x >= 0,
            q == x / den,
            x == den * (x / den) + x % den,
            0 <= x % den < den,
    ;
}

} // verus!
