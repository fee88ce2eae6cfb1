//! The trading contract: balances per asset and user, the XLM/USDC liquidity
//! pool with its LP tokens and positions, the query cache with its hit
//! counters, and the contract's staking and KYC entry points. Deposits,
//! withdrawals and the staking operations of a user are open to KYC-verified
//! users only; every write empties the query cache.

use vstd::prelude::*;
use crate::keyed::KeyedMap;
use crate::kyc::{GovernanceOverride, KYCError, KYCRecord, KYCStatus, KYCSystem};
use crate::staking_bonus::{
    active_sum, claimed_sum, earned_sum, pending_sum, DistributionRecord, StakeRecord,
    StakingBonusManager,
};
use crate::sums::{lemma_sum_nonneg, lemma_sum_push, lemma_sum_update, seq_sum};

verus! {

/// Version written by `initialize`.
pub const CONTRACT_VERSION: u32 = 1;

/// Text of the refusal given to staking requests of users without verified
/// KYC.
pub open spec fn kyc_required_text() -> Seq<char> {
    "KYC_VERIFICATION_REQUIRED"@
}

/// Seconds a cached query result stays valid unless set otherwise.
pub const DEFAULT_CACHE_TTL_SECONDS: u64 = 60;

/// Largest number of traders a leaderboard query returns.
pub const MAX_TRADER_LIMIT: u32 = 100;

/// Iterations after which the square root search stops.
pub const SQRT_MAX_ITERATIONS: u32 = 100;

/// `a + b`, or `u64::MAX` if that overflows.
pub open spec fn sat_add_u64(a: int, b: int) -> int {
    if a + b > u64::MAX { u64::MAX as int } else { a + b }
}

/// `a * b`, or `u64::MAX` if that overflows.
pub open spec fn sat_mul_u64(a: int, b: int) -> int {
    if a * b > u64::MAX { u64::MAX as int } else { a * b }
}

/// `a * b`, or `u128::MAX` if that overflows.
pub open spec fn sat_mul_u128(a: int, b: int) -> int {
    if a * b > u128::MAX { u128::MAX as int } else { a * b }
}

/// `a + b`, clamped to the range of `i128`.
pub open spec fn sat_add_i128(a: int, b: int) -> int {
    if a + b > i128::MAX { i128::MAX as int } else if a + b < i128::MIN { i128::MIN as int } else { a + b }
}

/// `a - b`, clamped to the range of `i128`.
pub open spec fn sat_sub_i128(a: int, b: int) -> int {
    sat_add_i128(a, -b)
}

/// Cache hit ratio in basis points, computed with saturating arithmetic.
pub open spec fn cache_ratio(hits: u64, misses: u64) -> int {
    let total = sat_add_u64(hits as int, misses as int);
    if total == 0 { 0 } else { sat_mul_u64(hits as int, 10000) / total }
}

/// Hit ratio of the query cache in basis points (0 when nothing was asked).
pub fn cache_ratio_bps(hits: u64, misses: u64) -> (r: u32)
    ensures
        r == cache_ratio(hits, misses),
        r <= 10000,
{
    let total = hits.saturating_add(misses);
    if total == 0 {
        return 0;
    }
    let num: u64 = match hits.checked_mul(10_000) {
        Some(v) => v,
        None => u64::MAX,
    };
    assert(num / total <= 10000) by (nonlinear_arith)
        requires
            num == sat_mul_u64(hits as int, 10000),
            total == sat_add_u64(hits as int, misses as int),
            total > 0,
    {
        if hits as int * 10000 > u64::MAX {
            assert(total >= hits);
            assert(hits * 10000 > u64::MAX);
            assert(total * 10000 > u64::MAX);
        } else {
            assert(num <= total * 10000);
        }
    }
    (num / total) as u32
}

/// The leaderboard cut to `min(limit, 100)` entries.
pub fn apply_trader_limit(traders: &Vec<(String, i128)>, limit: u32) -> (r: Vec<(String, i128)>)
    ensures
        r@ == limited(traders@, limit),
{
    let max_limit = if limit > MAX_TRADER_LIMIT { MAX_TRADER_LIMIT } else { limit };
    let len = traders.len();
    let cap = if len < max_limit as usize { len } else { max_limit as usize };
    let mut result: Vec<(String, i128)> = Vec::new();
    let mut i: usize = 0;
    while i < cap
        invariant
            cap <= traders@.len(),
            0 <= i <= cap,
            result@ == traders@.take(i as int),
        decreases cap - i,
    {
        let entry = &traders[i];
        result.push((entry.0.clone(), entry.1));
        i = i + 1;
        assert(result@ =~= traders@.take(i as int));
    }
    result
}

/// A non-panicking swap goes ahead only between the two pool assets, in
/// either direction, for a positive amount.
pub open spec fn swap_request_ok(from: Seq<char>, to: Seq<char>, amount: i128) -> bool {
    &&& (from == xlm_code() || from == usdc_code())
    &&& (to == xlm_code() || to == usdc_code())
    &&& from != to
    &&& amount > 0
}

/// Whether `safe_swap` would perform a swap of `amount` from `from` to `to`.
pub fn swap_request_valid(from: &str, to: &str, amount: i128) -> (b: bool)
    ensures
        b == swap_request_ok(from@, to@, amount),
{
    let f = from.to_owned();
    let t = to.to_owned();
    let x = xlm_key();
    let u = usdc_key();
    let tokens_ok = (f == x || f == u) && (t == x || t == u);
    let pair_ok = !(f == t);
    let amount_ok = amount > 0;
    tokens_ok && pair_ok && amount_ok
}

/// The fee on a swap of `amount` at `fee_bps` basis points, and what is left
/// to swap.
pub open spec fn swap_split(amount: int, fee_bps: int) -> (int, int) {
    let fee = (amount * fee_bps) / 10000;
    (fee, amount - fee)
}

/// Splits a swap input into the fee and the amount swapped.
pub fn swap_fee_split(amount: i128, fee_bps: u32) -> (r: (i128, i128))
    requires
        amount >= 0,
        amount * fee_bps <= i128::MAX,
    ensures
        r.0 == swap_split(amount as int, fee_bps as int).0,
        r.1 == swap_split(amount as int, fee_bps as int).1,
{
    let fee_amount = (amount * fee_bps as i128) / 10000;
    assert(fee_amount >= 0) by (nonlinear_arith)
        requires
            fee_amount == (amount * fee_bps) / 10000,
            amount >= 0,
    ;
    (fee_amount, amount - fee_amount)
}

/// One step of the Babylonian square root search.
pub open spec fn sqrt_step(n: int, g: int) -> int {
    (g + n / g) / 2
}

/// The Babylonian search for the square root of `n`: from `guess`, step
/// until a guess repeats or `SQRT_MAX_ITERATIONS` steps were taken; a step
/// that reaches zero ends the search at one.
pub open spec fn sqrt_search(n: int, guess: int, prev: int, iters: nat) -> int
    decreases SQRT_MAX_ITERATIONS - iters,
{
    if guess == prev || iters >= SQRT_MAX_ITERATIONS {
        guess
    } else if sqrt_step(n, guess) == 0 {
        1
    } else {
        sqrt_search(n, sqrt_step(n, guess), guess, iters + 1)
    }
}

/// A step from a positive guess never goes below the integer square root
/// (no `s` with `s * s <= n` exceeds it).
proof fn lemma_step_stays_above(n: int, g: int, s: int)
    requires
        n >= 1,
        g >= 1,
        s >= 0,
        s * s <= n,
    ensures
        sqrt_step(n, g) >= s,
{
    let q = n / g;
    assert(n < (q + 1) * g) by (nonlinear_arith)
        requires
            q == n / g,
            g >= 1,
    ;
    if g + q < 2 * s {
        assert(g * (q + 1) <= s * s) by (nonlinear_arith)
            requires
                g + q + 1 <= 2 * s,
                g >= 1,
                q >= 0,
        {
            assert(4 * g * (q + 1) <= (g + q + 1) * (g + q + 1));
            assert((g + q + 1) * (g + q + 1) <= 4 * s * s);
        }
        assert(false) by (nonlinear_arith)
            requires
                n < (q + 1) * g,
                g * (q + 1) <= s * s,
                s * s <= n,
        ;
    }
}

/// A step from a guess above every root candidate strictly decreases.
proof fn lemma_step_decreases(n: int, g: int)
    requires
        n >= 1,
        g >= 1,
        g * g > n,
    ensures
        sqrt_step(n, g) < g,
{
    let q = n / g;
    assert(q < g) by (nonlinear_arith)
        requires
            q == n / g,
            g >= 1,
            g * g > n,
            n >= 0,
    {
        assert(q * g <= n);
    }
}

/// The integer square root: the largest `s` with `s * s <= n`.
pub open spec fn int_sqrt(n: nat) -> nat
    decreases n,
{
    if n == 0 {
        0
    } else {
        let r = int_sqrt((n - 1) as nat);
        if (r + 1) * (r + 1) <= n { r + 1 } else { r }
    }
}

/// `int_sqrt(n)` squared is at most `n`, and its successor squared exceeds `n`.
pub proof fn lemma_int_sqrt(n: nat)
    ensures
        int_sqrt(n) * int_sqrt(n) <= n < (int_sqrt(n) + 1) * (int_sqrt(n) + 1),
    decreases n,
{
    if n > 0 {
        lemma_int_sqrt((n - 1) as nat);
        let r = int_sqrt((n - 1) as nat);
        assert(int_sqrt(n) == (if (r + 1) * (r + 1) <= n { r + 1 } else { r }));
        assert((r + 1) * (r + 1) < (r + 2) * (r + 2)) by (nonlinear_arith)
            requires
                r >= 0,
        ;
        assert(r * r <= n);
        if (r + 1) * (r + 1) <= n {
            let t = r + 1;
            assert(int_sqrt(n) == t);
            assert(n <= (r + 1) * (r + 1));
            assert(t * t <= n < (t + 1) * (t + 1));
            assert(int_sqrt(n) * int_sqrt(n) <= n < (int_sqrt(n) + 1) * (int_sqrt(n) + 1));
        } else {
            assert(int_sqrt(n) == r);
            assert(int_sqrt(n) * int_sqrt(n) <= n < (int_sqrt(n) + 1) * (int_sqrt(n) + 1));
        }
    } else {
        let z = int_sqrt(n);
        assert(z == 0);
        assert((z + 1) * (z + 1) == 1) by (nonlinear_arith)
            requires
                z == 0,
        ;
    }
}

/// Two to the power `k`.
pub open spec fn two_pow(k: nat) -> int
    decreases k,
{
    if k == 0 { 1 } else { 2 * two_pow((k - 1) as nat) }
}

/// The scale that bounds the distance to the root `j` steps after it
/// fell to half the root: 2, then `2 * m * m` each step.
pub open spec fn root_scale(j: nat) -> int
    decreases j,
{
    if j == 0 { 2 } else { 2 * root_scale((j - 1) as nat) * root_scale((j - 1) as nat) }
}

/// What one step does to the distance `d = g - s` from the root `s`: it
/// stays non-negative, at least halves when positive, and satisfies
/// `2 (s + d) d' <= d * d + 2 s`.
proof fn lemma_step_distance(n: int, s: int, g: int)
    requires
        1 <= s,
        s * s <= n < (s + 1) * (s + 1),
        g >= s,
    ensures
        sqrt_step(n, g) >= s,
        g >= s + 1 ==> 2 * (sqrt_step(n, g) - s) <= g - s,
        2 * g * (sqrt_step(n, g) - s) <= (g - s) * (g - s) + 2 * s,
{
    assert(s * s >= 1) by (nonlinear_arith)
        requires
            s >= 1,
    ;
    lemma_step_stays_above(n, g, s);
    let q = n / g;
    let g2 = sqrt_step(n, g);
    assert(q * g <= n) by (nonlinear_arith)
        requires
            q == n / g,
            g >= 1,
            n >= 0,
    ;
    assert(2 * g2 <= g + q);
    if g >= s + 1 {
        if q >= s + 1 {
            assert(q * g >= (s + 1) * (s + 1)) by (nonlinear_arith)
                requires
                    q >= s + 1,
                    g >= s + 1,
                    s >= 0,
            ;
        }
        assert(q <= s);
    }
    assert(2 * g * (g2 - s) <= (g - s) * (g - s) + 2 * s) by (nonlinear_arith)
        requires
            2 * g2 <= g + q,
            q * g <= n,
            n < (s + 1) * (s + 1),
            g >= s,
            s >= 1,
    {
        assert(2 * g2 * g <= g * g + q * g);
        assert(n <= s * s + 2 * s);
    }
}

/// Once within one of the root, the search stays within one.
proof fn lemma_near_root(s: int, g: int, g2: int)
    requires
        1 <= s,
        s <= g <= s + 1,
        g2 >= s,
        2 * g * (g2 - s) <= (g - s) * (g - s) + 2 * s,
    ensures
        g2 <= s + 1,
        g == s + 1 ==> g2 == s,
{
    assert((g - s) * (g - s) <= g - s) by (nonlinear_arith)
        requires
            0 <= g - s <= 1,
    ;
    if g2 >= s + 2 {
        assert(2 * g * (g2 - s) >= 4 * g) by (nonlinear_arith)
            requires
                g2 - s >= 2,
                g >= 1,
        ;
    }
    if g == s + 1 && g2 >= s + 1 {
        assert(2 * g * (g2 - s) >= 2 * g) by (nonlinear_arith)
            requires
                g2 - s >= 1,
                g >= 1,
        ;
    }
}

/// The scale grows: a distance bounded at scale `m` is bounded at scale
/// `2 m m` one step later.
proof fn lemma_scale_step(s: int, m: int, d: int, d2: int)
    requires
        s >= 8,
        m >= 2,
        d >= 0,
        d2 >= 0,
        m * d <= s + 4 * m,
        2 * (s + d) * d2 <= d * d + 2 * s,
    ensures
        2 * m * m * d2 <= s + 8 * m * m,
{
    assert(2 * s * d2 <= d * d + 2 * s) by (nonlinear_arith)
        requires
            2 * (s + d) * d2 <= d * d + 2 * s,
            d >= 0,
            d2 >= 0,
    ;
    assert((m * d) * (m * d) <= (s + 4 * m) * (s + 4 * m)) by (nonlinear_arith)
        requires
            0 <= m * d <= s + 4 * m,
    ;
    assert(2 * s * (m * m * d2) <= (m * d) * (m * d) + 2 * s * m * m) by (nonlinear_arith)
        requires
            2 * s * d2 <= d * d + 2 * s,
            m >= 0,
    ;
    assert(2 * s * (m * m * d2) <= s * s + 8 * s * m + 16 * m * m + 2 * s * m * m) by (nonlinear_arith)
        requires
            2 * s * (m * m * d2) <= (m * d) * (m * d) + 2 * s * m * m,
            (m * d) * (m * d) <= (s + 4 * m) * (s + 4 * m),
    ;
    assert(8 * s * m + 16 * m * m + 2 * s * m * m <= 8 * s * m * m) by (nonlinear_arith)
        requires
            s >= 8,
            m >= 2,
    {
        assert(16 * m * m <= 2 * s * m * m);
        assert(8 * s * m <= 4 * s * m * m);
    }
    assert(2 * m * m * d2 <= s + 8 * m * m) by (nonlinear_arith)
        requires
            2 * s * (m * m * d2) <= s * s + 8 * s * m * m,
            s >= 8,
    ;
}

/// When the scale exceeds the root, the distance is at most four, and one
/// more step brings it within one.
proof fn lemma_scale_done(s: int, m: int, d: int, d2: int)
    requires
        s >= 8,
        m > s,
        d >= 0,
        d2 >= 0,
        m * d <= s + 4 * m,
        2 * (s + d) * d2 <= d * d + 2 * s,
    ensures
        d2 <= 1,
{
    assert(d <= 4) by (nonlinear_arith)
        requires
            m * d <= s + 4 * m,
            m > s,
            s >= 0,
            d >= 0,
    {
        if d >= 5 {
            assert(m * d >= 5 * m);
        }
    }
    if d2 >= 2 {
        assert(2 * (s + d) * d2 >= 4 * (s + d)) by (nonlinear_arith)
            requires
                d2 >= 2,
                s + d >= 0,
        ;
        assert(d * d <= 4 * d) by (nonlinear_arith)
            requires
                0 <= d <= 4,
        ;
    }
}

/// `two_pow(k)` exceeds `k`.
proof fn lemma_two_pow_grows(k: nat)
    ensures
        two_pow(k) >= k + 1,
    decreases k,
{
    if k > 0 {
        lemma_two_pow_grows((k - 1) as nat);
    }
}

/// Every scale is at least two.
proof fn lemma_root_scale_min(j: nat)
    ensures
        root_scale(j) >= 2,
    decreases j,
{
    if j > 0 {
        lemma_root_scale_min((j - 1) as nat);
        let m = root_scale((j - 1) as nat);
        assert(2 * m * m >= 2) by (nonlinear_arith)
            requires
                m >= 2,
        ;
    }
}

/// What one step of the search keeps, from guess `g0` after `k` steps to
/// `g2 = sqrt_step(n, g0)`: the distance `g - s` to the root `s` halves
/// while large (`p` is two to the `k`), shrinks by the scale once at most
/// half the root, and is at most one from step 72 on.
proof fn lemma_search_step(n: int, s: int, k: int, p: int, g0: int, g2: int)
    requires
        1 <= s < 0x1_0000_0000_0000_0000,
        s * s <= n < (s + 1) * (s + 1),
        0 <= k,
        s <= g0,
        g2 == sqrt_step(n, g0),
        p == two_pow(k as nat),
        g0 - s <= 1 || (g0 - s) * p <= n,
        s >= 8 && k >= 65 ==> (g0 - s <= 1 || root_scale((k - 65) as nat) * (g0 - s)
            <= s + 4 * root_scale((k - 65) as nat)),
        k >= 72 ==> g0 - s <= 1,
    ensures
        s <= g2,
        g2 - s <= 1 || (g2 - s) * (2 * p) <= n,
        s >= 8 && k + 1 >= 65 ==> (g2 - s <= 1 || root_scale((k + 1 - 65) as nat) * (g2 - s)
            <= s + 4 * root_scale((k + 1 - 65) as nat)),
        k + 1 >= 72 ==> g2 - s <= 1,
{
    lemma_step_distance(n, s, g0);
    let d0 = g0 - s;
    let d2 = g2 - s;
    assert(2 * (s + d0) * d2 <= d0 * d0 + 2 * s);
    if d0 <= 1 {
        lemma_near_root(s, g0, g2);
    } else {
        assert(p >= 1) by {
            lemma_two_pow_grows(k as nat);
        }
        assert(d2 * (2 * p) <= n) by (nonlinear_arith)
            requires
                2 * d2 <= d0,
                d0 * p <= n,
                p >= 1,
                d2 >= 0,
        ;
    }
    if s >= 8 && k + 1 >= 65 && d2 > 1 {
        if k + 1 == 65 {
            reveal_with_fuel(two_pow, 66);
            assert(2 * p == 0x2_0000_0000_0000_0000);
            assert(root_scale(0) == 2);
            assert((s + 1) * (s + 1) <= (s + 1) * 0x1_0000_0000_0000_0000) by (nonlinear_arith)
                requires
                    0 <= s + 1 <= 0x1_0000_0000_0000_0000,
            ;
            assert(2 * d2 <= s + 8) by (nonlinear_arith)
                requires
                    d2 * 0x2_0000_0000_0000_0000 <= n,
                    n < (s + 1) * (s + 1),
                    (s + 1) * (s + 1) <= (s + 1) * 0x1_0000_0000_0000_0000,
                    d2 >= 0,
            ;
            assert(((k + 1 - 65) as nat) == 0);
            assert(root_scale((k + 1 - 65) as nat) == 2);
            assert(root_scale((k + 1 - 65) as nat) * (g2 - s) <= s + 4 * root_scale((k + 1 - 65) as nat));
        } else {
            let m = root_scale((k - 65) as nat);
            lemma_root_scale_min((k - 65) as nat);
            lemma_scale_step(s, m, d0, d2);
            assert(((k + 1 - 65) as nat) == ((k - 65) as nat) + 1);
            assert(root_scale((k + 1 - 65) as nat) == 2 * m * m);
            let m2 = root_scale((k + 1 - 65) as nat);
            assert(m2 * d2 <= s + 4 * m2) by (nonlinear_arith)
                requires
                    m2 == 2 * m * m,
                    2 * m * m * d2 <= s + 8 * m * m,
            ;
        }
    }
    if k + 1 >= 72 && d0 > 1 {
        if s < 8 {
            lemma_two_pow_grows((k + 1) as nat);
            assert(2 * p == two_pow((k + 1) as nat));
            if d2 >= 2 {
                assert(d2 * (2 * p) >= 2 * 73) by (nonlinear_arith)
                    requires
                        d2 >= 2,
                        2 * p >= 73,
                ;
                assert((s + 1) * (s + 1) <= 64) by (nonlinear_arith)
                    requires
                        0 <= s < 8,
                ;
            }
        } else {
            assert(k == 71);
            assert(root_scale(0) == 2);
            assert(root_scale(1) == 8);
            assert(root_scale(2) == 128);
            assert(root_scale(3) == 32768);
            assert(root_scale(4) == 0x8000_0000);
            assert(root_scale(5) == 0x8000_0000_0000_0000);
            let r5 = root_scale(5);
            assert(root_scale(6) == 2 * r5 * r5);
            assert(2 * r5 * r5 == 0x8000_0000_0000_0000_0000_0000_0000_0000) by (nonlinear_arith)
                requires
                    r5 == 0x8000_0000_0000_0000,
            ;
            let m = root_scale((k - 65) as nat);
            assert(m == 0x8000_0000_0000_0000_0000_0000_0000_0000);
            lemma_scale_done(s, m, d0, d2);
        }
    }
}

/// The integer square root of `product`, by the Babylonian search started
/// from `product` itself. The search ends on the root or, when it swings
/// between the root and its successor, on the successor; that one is
/// stepped back to the root.
pub fn babylonian_sqrt(product: u128) -> (r: u128)
    requires
        1 <= product < u128::MAX,
    ensures
        r == int_sqrt(product as nat),
        r * r <= product < (r + 1) * (r + 1),
        1 <= r <= (product + 1) / 2,
{
    let ghost n = product as int;
    let ghost s = int_sqrt(product as nat) as int;
    proof {
        lemma_int_sqrt(product as nat);
        assert(s >= 1) by (nonlinear_arith)
            requires
                s * s <= n < (s + 1) * (s + 1),
                n >= 1,
                s >= 0,
        {
            if s == 0 {
                assert((s + 1) * (s + 1) == 1);
            }
        }
        assert(s <= n) by (nonlinear_arith)
            requires
                s >= 1,
                s * s <= n,
        ;
        assert(s < 0x1_0000_0000_0000_0000) by (nonlinear_arith)
            requires
                s >= 0,
                s * s <= n,
                n < 0x1_0000_0000_0000_0000_0000_0000_0000_0000,
        {
            if s >= 0x1_0000_0000_0000_0000 {
                assert(s * s >= 0x1_0000_0000_0000_0000 * 0x1_0000_0000_0000_0000);
            }
        }
    }
    let mut guess: u128 = product;
    let mut prev_guess: u128 = 0;
    let mut iterations: u32 = 0;
    let ghost mut p: int = 1;
    while guess != prev_guess && iterations < SQRT_MAX_ITERATIONS
        invariant
            n == product,
            1 <= product < u128::MAX,
            1 <= s < 0x1_0000_0000_0000_0000,
            s * s <= n < (s + 1) * (s + 1),
            s <= guess <= product,
            iterations <= SQRT_MAX_ITERATIONS,
            iterations == 0 ==> guess == product && prev_guess == 0,
            (guess == product && prev_guess == 0 && iterations == 0) || guess <= (product + 1) / 2,
            sqrt_search(n, guess as int, prev_guess as int, iterations as nat)
                == sqrt_search(n, n, 0, 0),
            iterations >= 1 ==> guess == sqrt_step(n, prev_guess as int) && prev_guess >= s,
            p == two_pow(iterations as nat),
            guess - s <= 1 || (guess - s) * p <= n,
            s >= 8 && iterations >= 65 ==> (guess - s <= 1 || root_scale((iterations - 65) as nat) * (guess - s)
                <= s + 4 * root_scale((iterations - 65) as nat)),
            iterations >= 72 ==> guess - s <= 1,
            iterations >= 73 ==> prev_guess - s <= 1,
        ensures
            sqrt_search(n, guess as int, prev_guess as int, iterations as nat)
                == sqrt_search(n, n, 0, 0),
            s <= guess <= (product + 1) / 2,
            guess == sqrt_search(n, guess as int, prev_guess as int, iterations as nat),
            guess == prev_guess || iterations >= SQRT_MAX_ITERATIONS,
            iterations >= 1,
            iterations >= 1 ==> guess == sqrt_step(n, prev_guess as int) && prev_guess >= s,
            iterations >= 72 ==> guess - s <= 1,
            iterations >= 73 ==> prev_guess - s <= 1,
        decreases SQRT_MAX_ITERATIONS - iterations,
    {
        let ghost g0 = guess as int;
        let ghost k = iterations as int;
        prev_guess = guess;
        let quotient = product / guess;
        assert(guess + quotient <= product + 1) by (nonlinear_arith)
            requires
                quotient == product / guess,
                1 <= guess <= product,
        {
            if guess >= 2 {
                assert(quotient * guess <= product);
                assert(quotient <= product / 2);
            }
        }
        guess = (guess + quotient) / 2;
        proof {
            lemma_search_step(n, s, k, p, g0, guess as int);
        }
        if guess == 0 {
            guess = 1;
            break;
        }
        proof {
            let g2 = guess as int;
            if g0 * g0 > n {
                lemma_step_decreases(n, g0);
            } else if g0 >= 2 {
                assert(g2 <= n / 2) by (nonlinear_arith)
                    requires
                        g2 == (g0 + n / g0) / 2,
                        2 <= g0,
                        g0 * g0 <= n,
                {
                    assert(n / g0 <= n / 2);
                    assert(g0 <= n / 2) by {
                        assert(g0 * 2 <= g0 * g0);
                    }
                }
            }
            assert(g2 <= n) by (nonlinear_arith)
                requires
                    g2 == (g0 + n / g0) / 2,
                    1 <= g0 <= n,
            {
                assert((n / g0) * g0 <= n);
                if g0 >= 2 {
                    assert(n / g0 <= n / 2);
                }
            }
        }
        iterations = iterations + 1;
        proof {
            p = 2 * p;
        }
    }
    proof {
        let g = guess as int;
        let pg = prev_guess as int;
        if guess == prev_guess && g >= s + 1 {
            assert(g * g > n) by (nonlinear_arith)
                requires
                    g >= s + 1,
                    n < (s + 1) * (s + 1),
                    s >= 0,
            ;
            lemma_step_decreases(n, g);
        }
        if g == s + 1 {
            if pg == s + 1 {
                lemma_step_distance(n, s, pg);
                lemma_near_root(s, pg, g);
            }
            assert(pg == s);
            let q = n / s;
            assert(q * s <= n) by (nonlinear_arith)
                requires
                    q == n / s,
                    s >= 1,
                    n >= 0,
            ;
            assert(n + 1 == (s + 1) * (s + 1)) by (nonlinear_arith)
                requires
                    (s + q) / 2 == s + 1,
                    q * s <= n,
                    n < (s + 1) * (s + 1),
                    s >= 1,
            {
                assert(q >= s + 2);
                assert(q * s >= (s + 2) * s);
            }
        }
    }
    let quotient = product / guess;
    proof {
        let g = guess as int;
        let q = quotient as int;
        assert(q * g <= n && n < (q + 1) * g) by (nonlinear_arith)
            requires
                q == n / g,
                g >= 1,
                n >= 0,
        ;
        if g == s + 1 {
            assert(q < g) by (nonlinear_arith)
                requires
                    q * g <= n,
                    n < g * g,
                    g >= 1,
            ;
        } else {
            assert(g == s);
            assert(q >= g) by (nonlinear_arith)
                requires
                    g * g <= n,
                    n < (q + 1) * g,
                    g >= 1,
            ;
        }
    }
    if guess > quotient {
        guess - 1
    } else {
        guess
    }
}

/// `a * b`, clamped to the range of `i128`.
pub open spec fn sat_mul_i128(a: int, b: int) -> int {
    if a * b > i128::MAX { i128::MAX as int } else if a * b < i128::MIN { i128::MIN as int } else { a * b }
}

fn sat_add(a: i128, b: i128) -> (r: i128)
    ensures
        r == sat_add_i128(a as int, b as int),
{
    match a.checked_add(b) {
        Some(v) => v,
        None => if b > 0 { i128::MAX } else { i128::MIN },
    }
}

fn sat_sub(a: i128, b: i128) -> (r: i128)
    ensures
        r == sat_sub_i128(a as int, b as int),
{
    match a.checked_sub(b) {
        Some(v) => v,
        None => if b < 0 { i128::MAX } else { i128::MIN },
    }
}

fn sat_mul(a: i128, b: i128) -> (r: i128)
    requires
        b >= 0,
    ensures
        r == sat_mul_i128(a as int, b as int),
{
    match a.checked_mul(b) {
        Some(v) => v,
        None => {
            if a > 0 {
                assert(a * b > i128::MAX) by (nonlinear_arith)
                    requires
                        a > 0,
                        b >= 0,
                        !(i128::MIN <= a * b <= i128::MAX),
                ;
                i128::MAX
            } else {
                assert(a * b < i128::MIN) by (nonlinear_arith)
                    requires
                        a <= 0,
                        b >= 0,
                        !(i128::MIN <= a * b <= i128::MAX),
                ;
                i128::MIN
            }
        },
    }
}

fn sat_mul_u(a: u128, b: u128) -> (r: u128)
    ensures
        r == sat_mul_u128(a as int, b as int),
{
    match a.checked_mul(b) {
        Some(v) => v,
        None => u128::MAX,
    }
}

/// A pool share: `amount * total / reserve` with a saturating product, or
/// zero for an empty reserve.
pub open spec fn pool_share(amount: i128, total: i128, reserve: i128) -> int {
    if reserve > 0 { sat_mul_u128(amount as u128 as int, total as u128 as int) / (reserve as int) } else { 0 }
}

/// LP tokens minted for a deposit: the integer square root of the product
/// for the first deposit, otherwise the smaller of the two proportional
/// shares.
pub open spec fn lp_for_deposit(xlm: i128, usdc: i128, reserve_xlm: i128, reserve_usdc: i128, total_lp: i128) -> int {
    if total_lp == 0 {
        int_sqrt(sat_mul_u128(xlm as u128 as int, usdc as u128 as int) as nat) as int
    } else {
        let a = pool_share(xlm, total_lp, reserve_xlm) as i128;
        let b = pool_share(usdc, total_lp, reserve_usdc) as i128;
        if a <= b { a as int } else { b as int }
    }
}

/// LP tokens minted for a deposit of `xlm_amount` and `usdc_amount` into
/// reserves `current_xlm` and `current_usdc` with `total_lp` tokens out.
pub fn lp_tokens_for_deposit(xlm_amount: i128, usdc_amount: i128, current_xlm: i128, current_usdc: i128, total_lp: i128) -> (r: i128)
    requires
        xlm_amount > 0,
        usdc_amount > 0,
        total_lp == 0 ==> xlm_amount * usdc_amount < u128::MAX,
    ensures
        r == lp_for_deposit(xlm_amount, usdc_amount, current_xlm, current_usdc, total_lp),
        total_lp == 0 ==> r >= 1,
        total_lp == 0 ==> r * r <= xlm_amount * usdc_amount < (r + 1) * (r + 1),
{
    if total_lp == 0 {
        let product = sat_mul_u(xlm_amount as u128, usdc_amount as u128);
        assert(product >= 1) by (nonlinear_arith)
            requires
                product == xlm_amount * usdc_amount,
                xlm_amount > 0,
                usdc_amount > 0,
        ;
        let root = babylonian_sqrt(product);
        assert(root < 0x8000_0000_0000_0000_0000_0000_0000_0000u128);
        root as i128
    } else {
        let xlm_share: u128 = if current_xlm > 0 {
            sat_mul_u(xlm_amount as u128, total_lp as u128) / (current_xlm as u128)
        } else {
            0
        };
        let usdc_share: u128 = if current_usdc > 0 {
            sat_mul_u(usdc_amount as u128, total_lp as u128) / (current_usdc as u128)
        } else {
            0
        };
        let a = xlm_share as i128;
        let b = usdc_share as i128;
        if a <= b { a } else { b }
    }
}

/// Amount of one asset paid out for burning `lp` of `total` LP tokens
/// against reserve `reserve`.
pub open spec fn withdrawal(lp: i128, reserve: i128, total: i128) -> i128 {
    (sat_mul_u128(lp as u128 as int, reserve as u128 as int) / (total as u128 as int)) as i128
}

/// What `remove_liquidity` pays out of one reserve.
pub fn withdrawal_amount(lp_tokens: i128, reserve: i128, total_lp: i128) -> (r: i128)
    requires
        total_lp > 0,
    ensures
        r == withdrawal(lp_tokens, reserve, total_lp),
{
    (sat_mul_u(lp_tokens as u128, reserve as u128) / (total_lp as u128)) as i128
}

/// Burning `lp` of the `total` outstanding LP tokens never pays out more of
/// a reserve than the pool holds; burning all of them pays out the whole
/// reserve when `total * reserve` fits in `u128`.
pub proof fn law_withdrawal_within_reserve(lp: i128, reserve: i128, total: i128)
    requires
        0 < lp <= total,
        0 <= reserve,
    ensures
        0 <= withdrawal(lp, reserve, total) <= reserve,
        total * reserve <= u128::MAX ==> withdrawal(total, reserve, total) == reserve,
{
    let l = lp as int;
    let t = total as int;
    let v = reserve as int;
    let p = sat_mul_u128(l, v);
    assert(l * v <= t * v) by (nonlinear_arith)
        requires
            0 < l <= t,
            0 <= v,
    ;
    assert(0 <= p <= l * v) by (nonlinear_arith)
        requires
            p == sat_mul_u128(l, v),
            0 < l,
            0 <= v,
    ;
    assert(p / t <= v) by (nonlinear_arith)
        requires
            0 <= p <= t * v,
            0 < t,
    ;
    assert(0 <= p / t) by (nonlinear_arith)
        requires
            0 <= p,
            0 < t,
    ;
    assert(lp as u128 as int == l && reserve as u128 as int == v && total as u128 as int == t);
    if t * v <= u128::MAX {
        assert((t * v) / t == v) by (nonlinear_arith)
            requires
                0 < t,
        ;
    }
}

/// A first provider who deposits `x` XLM and `u` USDC into an empty pool
/// and burns all the LP tokens minted gets exactly `x` and `u` back, when
/// the products involved fit in `u128`.
pub proof fn law_sole_provider_round_trip(x: i128, u: i128)
    requires
        0 < x,
        0 < u,
        x * u < u128::MAX,
        lp_for_deposit(x, u, 0, 0, 0) * x <= u128::MAX,
        lp_for_deposit(x, u, 0, 0, 0) * u <= u128::MAX,
    ensures
        1 <= lp_for_deposit(x, u, 0, 0, 0) <= i128::MAX,
        withdrawal(lp_for_deposit(x, u, 0, 0, 0) as i128, x, lp_for_deposit(x, u, 0, 0, 0) as i128) == x,
        withdrawal(lp_for_deposit(x, u, 0, 0, 0) as i128, u, lp_for_deposit(x, u, 0, 0, 0) as i128) == u,
{
    let n = x * u;
    assert(n >= 1) by (nonlinear_arith)
        requires
            n == x * u,
            x > 0,
            u > 0,
    ;
    assert(x as u128 as int == x && u as u128 as int == u);
    assert(sat_mul_u128(x as u128 as int, u as u128 as int) == n);
    let r = int_sqrt(n as nat);
    lemma_int_sqrt(n as nat);
    assert(lp_for_deposit(x, u, 0, 0, 0) == r);
    assert(1 <= r) by (nonlinear_arith)
        requires
            n >= 1,
            n < (r + 1) * (r + 1),
            r >= 0,
    {
        if r == 0 {
            assert((r + 1) * (r + 1) == 1);
        }
    }
    assert(r <= i128::MAX) by (nonlinear_arith)
        requires
            r * r <= n,
            n < u128::MAX,
            r >= 1,
    {
        if r > i128::MAX {
            assert(r * r > i128::MAX * i128::MAX);
        }
    }
    law_withdrawal_within_reserve(r as i128, x, r as i128);
    law_withdrawal_within_reserve(r as i128, u, r as i128);
    assert(r * x == x * r && r * u == u * r) by (nonlinear_arith);
}

/// A deposit into a pool that already has LP tokens out mints, for each
/// asset, the deposit times the LP supply over that same asset's reserve,
/// and takes the smaller of the two. So a deposit of one `m`-th of both
/// reserves mints one `m`-th of the supply.
pub proof fn law_deposit_mints_smaller_share(x: i128, u: i128, rx: i128, ru: i128, t: i128)
    requires
        0 < x,
        0 < u,
        0 < rx,
        0 < ru,
        0 < t,
        x * t <= i128::MAX,
        u * t <= i128::MAX,
    ensures
        lp_for_deposit(x, u, rx, ru, t) == (if (x * t) / (rx as int) <= (u * t) / (ru as int) {
            (x * t) / (rx as int)
        } else {
            (u * t) / (ru as int)
        }),
        forall|m: int| #![trigger (x * m), (u * m)]
            m > 0 && rx == x * m && ru == u * m ==> lp_for_deposit(x, u, rx, ru, t) == (t as int) / m,
{
    assert(x as u128 as int == x && u as u128 as int == u && t as u128 as int == t);
    let xt = x * t;
    let ut = u * t;
    assert(xt / (rx as int) <= xt && ut / (ru as int) <= ut && xt / (rx as int) >= 0 && ut / (ru as int) >= 0)
        by (nonlinear_arith)
        requires
            xt >= 0,
            ut >= 0,
            rx >= 1,
            ru >= 1,
    ;
    assert forall|m: int| #![trigger (x * m), (u * m)]
        m > 0 && rx == x * m && ru == u * m implies (x * t) / (rx as int) == (t as int) / m && (u * t) / (ru as int) == (t as int) / m by {
        lemma_cancel_factor(x as int, t as int, m);
        lemma_cancel_factor(u as int, t as int, m);
    }
}

/// `(c * t) / (c * m) == t / m` for positive `c` and `m`.
proof fn lemma_cancel_factor(c: int, t: int, m: int)
    requires
        c > 0,
        m > 0,
        t >= 0,
    ensures
        (c * t) / (c * m) == t / m,
{
    let q = t / m;
    let r = t % m;
    assert(t == m * q + r && 0 <= r < m) by (nonlinear_arith)
        requires
            q == t / m,
            r == t % m,
            m > 0,
    ;
    assert(c * t == (c * m) * q + c * r && 0 <= c * r < c * m) by (nonlinear_arith)
        requires
            t == m * q + r,
            0 <= r < m,
            c > 0,
    ;
    vstd::arithmetic::div_mod::lemma_fundamental_div_mod_converse(c * t, c * m, q, c * r);
}

/// A liquidity provider's position.
pub struct LPPosition {
    pub lp_address: String,
    pub xlm_deposited: i128,
    pub usdc_deposited: i128,
    pub lp_tokens_minted: i128,
}

impl LPPosition {
    /// A field-by-field copy.
    pub fn copy_position(&self) -> (r: Self)
        ensures
            r == *self,
    {
        LPPosition {
            lp_address: self.lp_address.clone(),
            xlm_deposited: self.xlm_deposited,
            usdc_deposited: self.usdc_deposited,
            lp_tokens_minted: self.lp_tokens_minted,
        }
    }
}

/// Why a pool operation was refused.
#[derive(Clone, Copy, Debug, PartialEq, Eq, Structural)]
pub enum PoolError {
    KycVerificationRequired,
    XlmAmountNotPositive,
    UsdcAmountNotPositive,
    InsufficientXlmBalance,
    InsufficientUsdcBalance,
    MintedLpNotPositive,
    LpAmountNotPositive,
    NoLpPosition,
    InsufficientLpTokens,
    NoLpTokensInPool,
    AmountsNotPositive,
    RemovalExceedsDeposit,
    Unauthorized,
}

/// The text of each error.
pub open spec fn pool_error_text(e: PoolError) -> Seq<char> {
    match e {
        PoolError::KycVerificationRequired => "KYC_VERIFICATION_REQUIRED"@,
        PoolError::XlmAmountNotPositive => "XLM amount must be positive"@,
        PoolError::UsdcAmountNotPositive => "USDC amount must be positive"@,
        PoolError::InsufficientXlmBalance => "Insufficient XLM balance"@,
        PoolError::InsufficientUsdcBalance => "Insufficient USDC balance"@,
        PoolError::MintedLpNotPositive => "LP tokens minted must be positive"@,
        PoolError::LpAmountNotPositive => "LP tokens must be positive"@,
        PoolError::NoLpPosition => "User has no LP position"@,
        PoolError::InsufficientLpTokens => "Insufficient LP tokens"@,
        PoolError::NoLpTokensInPool => "No LP tokens in pool"@,
        PoolError::AmountsNotPositive => "Amounts must be positive"@,
        PoolError::RemovalExceedsDeposit => "Cannot remove more than deposited"@,
        PoolError::Unauthorized => "Unauthorized"@,
    }
}

impl PoolError {
    /// The text of this error.
    pub fn message(&self) -> (s: String)
        ensures
            s@ == pool_error_text(*self),
    {
        match self {
            PoolError::KycVerificationRequired => String::from_str("KYC_VERIFICATION_REQUIRED"),
            PoolError::XlmAmountNotPositive => String::from_str("XLM amount must be positive"),
            PoolError::UsdcAmountNotPositive => String::from_str("USDC amount must be positive"),
            PoolError::InsufficientXlmBalance => String::from_str("Insufficient XLM balance"),
            PoolError::InsufficientUsdcBalance => String::from_str("Insufficient USDC balance"),
            PoolError::MintedLpNotPositive => String::from_str("LP tokens minted must be positive"),
            PoolError::LpAmountNotPositive => String::from_str("LP tokens must be positive"),
            PoolError::NoLpPosition => String::from_str("User has no LP position"),
            PoolError::InsufficientLpTokens => String::from_str("Insufficient LP tokens"),
            PoolError::NoLpTokensInPool => String::from_str("No LP tokens in pool"),
            PoolError::AmountsNotPositive => String::from_str("Amounts must be positive"),
            PoolError::RemovalExceedsDeposit => String::from_str("Cannot remove more than deposited"),
            PoolError::Unauthorized => String::from_str("Unauthorized"),
        }
    }
}

/// LP tokens of one position.
pub open spec fn pos_lp(p: (String, LPPosition)) -> int {
    p.1.lp_tokens_minted as int
}

proof fn lemma_codes_differ()
    ensures
        xlm_code() != usdc_code(),
{
    reveal_strlit("XLM");
    reveal_strlit("USDCSIM");
    assert(xlm_code().len() != usdc_code().len());
}

/// Asset code of the native asset.
pub open spec fn xlm_code() -> Seq<char> {
    "XLM"@
}

/// Asset code of the simulated USDC asset.
pub open spec fn usdc_code() -> Seq<char> {
    "USDCSIM"@
}

fn xlm_key() -> (s: String)
    ensures
        s@ == xlm_code(),
{
    String::from_str("XLM")
}

fn usdc_key() -> (s: String)
    ensures
        s@ == usdc_code(),
{
    String::from_str("USDCSIM")
}

/// A portfolio summary kept by the query cache: trade count and PnL, and
/// when they were computed.
#[derive(Clone, Copy, Debug, PartialEq, Eq, Structural)]
pub struct CachedPortfolio {
    pub trades: u32,
    pub pnl: i128,
    pub cached_at: u64,
}

/// The leaderboard kept by the query cache, and when it was computed.
pub struct CachedTopTraders {
    pub traders: Vec<(String, i128)>,
    pub cached_at: u64,
}

/// The leaderboard `traders` cut to `min(limit, 100)` entries.
pub open spec fn limited(traders: Seq<(String, i128)>, limit: u32) -> Seq<(String, i128)> {
    let max_limit = if limit > MAX_TRADER_LIMIT { MAX_TRADER_LIMIT } else { limit };
    traders.take(if traders.len() < max_limit { traders.len() as int } else { max_limit as int })
}

/// The contract's state: KYC records, balances, the XLM/USDC pool, LP
/// positions, the cache counters, the query cache and the stakes.
pub struct CounterContract {
    pub kyc: KYCSystem,
    pub staking: StakingBonusManager,
    pub balances: KeyedMap<(String, String), i128>,
    pub xlm_liquidity: i128,
    pub usdc_liquidity: i128,
    pub total_lp_tokens: i128,
    pub positions: KeyedMap<String, LPPosition>,
    pub cache_hits: u64,
    pub cache_misses: u64,
    pub version: u32,
    pub trading_paused: bool,
    /// Seconds a cached query result stays valid; `None` until set.
    pub cache_ttl: Option<u64>,
    /// Cached portfolio summaries, by user.
    pub portfolio_cache: KeyedMap<String, CachedPortfolio>,
    /// The cached leaderboard, if any.
    pub top_traders_cache: Option<CachedTopTraders>,
    /// The slippage bound in basis points, once set.
    pub max_slippage_bps: Option<u32>,
}

impl CounterContract {
    /// Balance of `user` in asset `token`.
    pub closed spec fn bal(&self, token: Seq<char>, user: Seq<char>) -> int {
        if self.balances.map().contains_key((token, user)) { self.balances.map()[(token, user)] as int } else { 0 }
    }

    /// Reserves of the pool.
    pub closed spec fn reserve_xlm(&self) -> i128 {
        self.xlm_liquidity
    }

    pub closed spec fn reserve_usdc(&self) -> i128 {
        self.usdc_liquidity
    }

    /// LP tokens outstanding.
    pub closed spec fn total_lp(&self) -> i128 {
        self.total_lp_tokens
    }

    /// The position of `user`, if any.
    pub closed spec fn position(&self, user: Seq<char>) -> Option<LPPosition> {
        if self.positions.map().contains_key(user) { Some(self.positions.map()[user]) } else { None }
    }

    /// Cache counters.
    pub closed spec fn hits(&self) -> u64 {
        self.cache_hits
    }

    pub closed spec fn misses(&self) -> u64 {
        self.cache_misses
    }

    /// The stored contract version.
    pub closed spec fn stored_version(&self) -> u32 {
        self.version
    }

    /// The cached portfolio summary of `user`, if any.
    pub closed spec fn cached_portfolio(&self, user: Seq<char>) -> Option<CachedPortfolio> {
        if self.portfolio_cache.map().contains_key(user) { Some(self.portfolio_cache.map()[user]) } else { None }
    }

    /// No query result is cached.
    pub open spec fn caches_cleared(&self) -> bool {
        &&& forall|u: Seq<char>| #[trigger] self.cached_portfolio(u) is None
        &&& self.top_traders_cache is None
    }

    /// Whether a result cached at `cached_at` is still valid at `now`.
    pub open spec fn fresh_at(&self, cached_at: u64, now: u64) -> bool {
        (if now >= cached_at { now - cached_at } else { 0 }) <= self.ttl()
    }

    /// Maps are well formed; positions hold non-negative LP amounts that add
    /// up to the LP tokens outstanding.
    pub closed spec fn wf(&self) -> bool {
        &&& self.kyc.wf()
        &&& self.staking.wf()
        &&& self.balances.wf()
        &&& self.positions.wf()
        &&& self.portfolio_cache.wf()
        &&& forall|i: int| 0 <= i < self.positions.pairs().len() ==> (#[trigger] self.positions.pairs()[i]).1.lp_tokens_minted >= 0
            && self.positions.pairs()[i].1.lp_address@ == self.positions.pairs()[i].0@
        &&& self.total_lp_tokens == seq_sum(self.positions.pairs(), |p: (String, LPPosition)| pos_lp(p))
    }

    /// An empty contract whose KYC admin is `admin`.
    pub fn new(admin: &str) -> (c: Self)
        ensures
            c.wf(),
            c.kyc.admin_of() == admin@,
            forall|u: Seq<char>| !#[trigger] c.staking.has_account(u),
            c.staking.total_staked_spec() == 0,
            c.staking.total_distributed_spec() == 0,
            c.staking.history() == Seq::<DistributionRecord>::empty(),
            forall|t: Seq<char>, u: Seq<char>| #[trigger] c.bal(t, u) == 0,
            c.reserve_xlm() == 0,
            c.reserve_usdc() == 0,
            c.total_lp() == 0,
            forall|u: Seq<char>| #[trigger] c.position(u) is None,
            c.hits() == 0,
            c.misses() == 0,
            c.stored_version() == 0,
            !c.trading_paused,
            c.cache_ttl is None,
            c.caches_cleared(),
            c.max_slippage_bps is None,
    {
        let c = CounterContract {
            kyc: KYCSystem::new(admin),
            staking: StakingBonusManager::new(),
            balances: KeyedMap::new(),
            xlm_liquidity: 0,
            usdc_liquidity: 0,
            total_lp_tokens: 0,
            positions: KeyedMap::new(),
            cache_hits: 0,
            cache_misses: 0,
            version: 0,
            trading_paused: false,
            cache_ttl: None,
            portfolio_cache: KeyedMap::new(),
            top_traders_cache: None,
            max_slippage_bps: None,
        };
        assert(c.positions.pairs().len() == 0);
        c
    }

    /// The error `add_liquidity` answers with, if any.
    pub open spec fn add_error(&self, xlm: i128, usdc: i128, user: Seq<char>) -> Option<PoolError> {
        if self.kyc.status_of(user) != KYCStatus::Verified {
            Some(PoolError::KycVerificationRequired)
        } else if xlm <= 0 {
            Some(PoolError::XlmAmountNotPositive)
        } else if usdc <= 0 {
            Some(PoolError::UsdcAmountNotPositive)
        } else if self.bal(xlm_code(), user) < xlm {
            Some(PoolError::InsufficientXlmBalance)
        } else if self.bal(usdc_code(), user) < usdc {
            Some(PoolError::InsufficientUsdcBalance)
        } else if lp_for_deposit(xlm, usdc, self.reserve_xlm(), self.reserve_usdc(), self.total_lp()) <= 0 {
            Some(PoolError::MintedLpNotPositive)
        } else {
            None
        }
    }

    /// Only the two balances of `user`, the pool and the position of `user`
    /// may differ, and the query cache is emptied.
    pub open spec fn pool_frame(o: Self, n: Self, user: Seq<char>) -> bool {
        &&& n.kyc == o.kyc
        &&& n.staking == o.staking
        &&& n.trading_paused == o.trading_paused
        &&& n.cache_ttl == o.cache_ttl
        &&& n.caches_cleared()
        &&& n.hits() == o.hits()
        &&& n.misses() == o.misses()
        &&& n.stored_version() == o.stored_version()
        &&& forall|t: Seq<char>, u: Seq<char>| !(u == user && (t == xlm_code() || t == usdc_code()))
            ==> #[trigger] n.bal(t, u) == o.bal(t, u)
        &&& forall|v: Seq<char>| v != user ==> #[trigger] n.position(v) == o.position(v)
    }

    fn balance_key(token: String, user: &str) -> (k: (String, String))
        ensures
            k.0@ == token@,
            k.1@ == user@,
    {
        (token, user.to_owned())
    }

    fn read_balance(&self, key: &(String, String)) -> (b: i128)
        requires
            self.wf(),
        ensures
            b == self.bal(key.0@, key.1@),
    {
        match self.balances.get(key) {
            Some(v) => *v,
            None => 0,
        }
    }

    /// Balance of `user` in asset `token`.
    pub fn balance_of(&self, token: &str, user: &str) -> (b: i128)
        requires
            self.wf(),
        ensures
            b == self.bal(token@, user@),
    {
        let key = Self::balance_key(token.to_owned(), user);
        self.read_balance(&key)
    }

    /// Credits `amount` of `token` to `to`.
    pub fn mint(&mut self, token: &str, to: &str, amount: i128)
        requires
            old(self).wf(),
            i128::MIN <= old(self).bal(token@, to@) + amount <= i128::MAX,
        ensures
            final(self).wf(),
            final(self).bal(token@, to@) == old(self).bal(token@, to@) + amount,
            forall|t: Seq<char>, u: Seq<char>| !(t == token@ && u == to@) ==> #[trigger] final(self).bal(t, u) == old(self).bal(t, u),
            final(self).caches_cleared(),
            *final(self) == (CounterContract {
                balances: final(self).balances,
                portfolio_cache: final(self).portfolio_cache,
                top_traders_cache: None,
                ..*old(self)
            }),
    {
        let key = Self::balance_key(token.to_owned(), to);
        let current = self.read_balance(&key);
        self.balances.insert(key, current + amount);
        self.invalidate_query_cache();
    }

    fn invalidate_query_cache(&mut self)
        ensures
            final(self).caches_cleared(),
            final(self).portfolio_cache.wf(),
            *final(self) == (CounterContract {
                portfolio_cache: final(self).portfolio_cache,
                top_traders_cache: None,
                ..*old(self)
            }),
    {
        self.portfolio_cache = KeyedMap::new();
        self.top_traders_cache = None;
    }

    proof fn lemma_lp_bound(&self, user: Seq<char>)
        requires
            self.wf(),
        ensures
            self.total_lp() >= 0,
            self.position(user) matches Some(p) ==> 0 <= p.lp_tokens_minted <= self.total_lp(),
    {
        self.positions.lemma_keys();
        let ps = self.positions.pairs();
        let f = |p: (String, LPPosition)| pos_lp(p);
        assert forall|j: int| 0 <= j < ps.len() implies f(#[trigger] ps[j]) >= 0 by {}
        lemma_sum_nonneg(ps, f);
        if self.positions.map().contains_key(user) {
            let j = choose|j: int| 0 <= j < ps.len() && (#[trigger] ps[j]).0@ == user;
            assert(f(ps[j]) >= 0);
        }
    }

    /// Deposits `xlm_amount` XLM and `usdc_amount` USDC of `user` into the
    /// pool and mints LP tokens for them; returns the LP tokens minted.
    pub fn add_liquidity(&mut self, xlm_amount: i128, usdc_amount: i128, user: &str) -> (r: Result<i128, PoolError>)
        requires
            old(self).wf(),
            old(self).total_lp() == 0 && xlm_amount > 0 && usdc_amount > 0 ==> xlm_amount * usdc_amount < u128::MAX,
            old(self).add_error(xlm_amount, usdc_amount, user@) is None ==> {
                &&& old(self).reserve_xlm() + xlm_amount <= i128::MAX
                &&& old(self).reserve_usdc() + usdc_amount <= i128::MAX
                &&& old(self).total_lp() + lp_for_deposit(xlm_amount, usdc_amount, old(self).reserve_xlm(),
                    old(self).reserve_usdc(), old(self).total_lp()) <= i128::MAX
            },
        ensures
            final(self).wf(),
            match old(self).add_error(xlm_amount, usdc_amount, user@) {
                Some(e) => r == Err::<i128, PoolError>(e) && *final(self) == *old(self),
                None => {
                    let lp = lp_for_deposit(xlm_amount, usdc_amount, old(self).reserve_xlm(), old(self).reserve_usdc(), old(self).total_lp());
                    &&& r == Ok::<i128, PoolError>(lp as i128)
                    &&& old(self).total_lp() == 0 ==> lp * lp <= xlm_amount * usdc_amount < (lp + 1) * (lp + 1)
                    &&& final(self).bal(xlm_code(), user@) == old(self).bal(xlm_code(), user@) - xlm_amount
                    &&& final(self).bal(usdc_code(), user@) == old(self).bal(usdc_code(), user@) - usdc_amount
                    &&& final(self).reserve_xlm() == old(self).reserve_xlm() + xlm_amount
                    &&& final(self).reserve_usdc() == old(self).reserve_usdc() + usdc_amount
                    &&& final(self).total_lp() == old(self).total_lp() + lp
                    &&& final(self).position(user@) matches Some(p) && p.lp_address@ == user@ && match old(self).position(user@) {
                        Some(q) => {
                            &&& p.xlm_deposited == sat_add_i128(q.xlm_deposited as int, xlm_amount as int)
                            &&& p.usdc_deposited == sat_add_i128(q.usdc_deposited as int, usdc_amount as int)
                            &&& p.lp_tokens_minted == q.lp_tokens_minted + lp
                        },
                        None => {
                            &&& p.xlm_deposited == xlm_amount
                            &&& p.usdc_deposited == usdc_amount
                            &&& p.lp_tokens_minted == lp
                        },
                    }
                    &&& Self::pool_frame(*old(self), *final(self), user@)
                },
            },
    {
        if self.kyc.require_verified(user).is_err() {
            return Err(PoolError::KycVerificationRequired);
        }
        if xlm_amount <= 0 {
            return Err(PoolError::XlmAmountNotPositive);
        }
        if usdc_amount <= 0 {
            return Err(PoolError::UsdcAmountNotPositive);
        }
        let current_xlm = self.xlm_liquidity;
        let current_usdc = self.usdc_liquidity;
        let total_lp_tokens = self.total_lp_tokens;
        let xlm_key = Self::balance_key(xlm_key(), user);
        let usdc_key = Self::balance_key(usdc_key(), user);
        let user_xlm_balance = self.read_balance(&xlm_key);
        let user_usdc_balance = self.read_balance(&usdc_key);
        if user_xlm_balance < xlm_amount {
            return Err(PoolError::InsufficientXlmBalance);
        }
        if user_usdc_balance < usdc_amount {
            return Err(PoolError::InsufficientUsdcBalance);
        }
        let lp_tokens_minted = lp_tokens_for_deposit(xlm_amount, usdc_amount, current_xlm, current_usdc, total_lp_tokens);
        if lp_tokens_minted <= 0 {
            return Err(PoolError::MintedLpNotPositive);
        }
        let ghost o = *self;
        proof {
            o.lemma_lp_bound(user@);
            lemma_codes_differ();
        }
        self.balances.insert(xlm_key, user_xlm_balance - xlm_amount);
        self.balances.insert(usdc_key, user_usdc_balance - usdc_amount);
        self.xlm_liquidity = current_xlm + xlm_amount;
        self.usdc_liquidity = current_usdc + usdc_amount;
        let ukey = user.to_owned();
        match self.positions.find(&ukey) {
            Some(i) => {
                proof {
                    o.positions.lemma_keys();
                }
                let mut pos = self.positions.at(i).1.copy_position();
                let ghost oldp = pos;
                pos.xlm_deposited = sat_add(pos.xlm_deposited, xlm_amount);
                pos.usdc_deposited = sat_add(pos.usdc_deposited, usdc_amount);
                pos.lp_tokens_minted = sat_add(pos.lp_tokens_minted, lp_tokens_minted);
                let ghost np = pos;
                self.positions.replace_at(i, pos);
                proof {
                    let f = |p: (String, LPPosition)| pos_lp(p);
                    lemma_sum_update(o.positions.pairs(), i as int, (o.positions.pairs()[i as int].0, np), f);
                    assert forall|j: int| 0 <= j < self.positions.pairs().len() implies (#[trigger] self.positions.pairs()[j]).1.lp_tokens_minted >= 0
                        && self.positions.pairs()[j].1.lp_address@ == self.positions.pairs()[j].0@ by {
                        if j != i {
                            assert(self.positions.pairs()[j] == o.positions.pairs()[j]);
                        }
                    }
                }
            },
            None => {
                let pos = LPPosition {
                    lp_address: user.to_owned(),
                    xlm_deposited: xlm_amount,
                    usdc_deposited: usdc_amount,
                    lp_tokens_minted,
                };
                let ghost np = pos;
                let ghost kk = ukey;
                self.positions.insert(ukey, pos);
                proof {
                    let f = |p: (String, LPPosition)| pos_lp(p);
                    lemma_sum_push(o.positions.pairs(), (kk, np), f);
                    assert forall|j: int| 0 <= j < self.positions.pairs().len() implies (#[trigger] self.positions.pairs()[j]).1.lp_tokens_minted >= 0
                        && self.positions.pairs()[j].1.lp_address@ == self.positions.pairs()[j].0@ by {
                        if j < o.positions.pairs().len() {
                            assert(self.positions.pairs()[j] == o.positions.pairs()[j]);
                        }
                    }
                }
            },
        }
        self.total_lp_tokens = total_lp_tokens + lp_tokens_minted;
        self.invalidate_query_cache();
        Ok(lp_tokens_minted)
    }

    /// The error `remove_liquidity` answers with, if any.
    pub open spec fn remove_error(&self, lp: i128, user: Seq<char>) -> Option<PoolError> {
        if self.kyc.status_of(user) != KYCStatus::Verified {
            Some(PoolError::KycVerificationRequired)
        } else if lp <= 0 {
            Some(PoolError::LpAmountNotPositive)
        } else if self.position(user) is None {
            Some(PoolError::NoLpPosition)
        } else if self.position(user).unwrap().lp_tokens_minted < lp {
            Some(PoolError::InsufficientLpTokens)
        } else if self.total_lp() <= 0 {
            Some(PoolError::NoLpTokensInPool)
        } else {
            let pos = self.position(user).unwrap();
            let x = withdrawal(lp, self.reserve_xlm(), self.total_lp());
            let u = withdrawal(lp, self.reserve_usdc(), self.total_lp());
            if !(x > 0 && u > 0) {
                Some(PoolError::AmountsNotPositive)
            } else if x > sat_mul_i128(pos.xlm_deposited as int, 101) / 100 || u > sat_mul_i128(pos.usdc_deposited as int, 101) / 100 {
                Some(PoolError::RemovalExceedsDeposit)
            } else {
                None
            }
        }
    }

    /// Burns `lp_tokens` of `user`'s LP tokens and pays out the matching
    /// share of both reserves; returns the XLM and USDC paid.
    pub fn remove_liquidity(&mut self, lp_tokens: i128, user: &str) -> (r: Result<(i128, i128), PoolError>)
        requires
            old(self).wf(),
            old(self).remove_error(lp_tokens, user@) is None ==> {
                &&& old(self).bal(xlm_code(), user@) + withdrawal(lp_tokens, old(self).reserve_xlm(), old(self).total_lp()) <= i128::MAX
                &&& old(self).bal(usdc_code(), user@) + withdrawal(lp_tokens, old(self).reserve_usdc(), old(self).total_lp()) <= i128::MAX
            },
        ensures
            final(self).wf(),
            match old(self).remove_error(lp_tokens, user@) {
                Some(e) => r == Err::<(i128, i128), PoolError>(e) && *final(self) == *old(self),
                None => {
                    let x = withdrawal(lp_tokens, old(self).reserve_xlm(), old(self).total_lp());
                    let u = withdrawal(lp_tokens, old(self).reserve_usdc(), old(self).total_lp());
                    let q = old(self).position(user@).unwrap();
                    &&& r == Ok::<(i128, i128), PoolError>((x, u))
                    &&& final(self).bal(xlm_code(), user@) == old(self).bal(xlm_code(), user@) + x
                    &&& final(self).bal(usdc_code(), user@) == old(self).bal(usdc_code(), user@) + u
                    &&& final(self).reserve_xlm() == sat_sub_i128(old(self).reserve_xlm() as int, x as int)
                    &&& final(self).reserve_usdc() == sat_sub_i128(old(self).reserve_usdc() as int, u as int)
                    &&& final(self).total_lp() == old(self).total_lp() - lp_tokens
                    &&& final(self).position(user@) matches Some(p) && p.lp_address == q.lp_address
                        && p.lp_tokens_minted == q.lp_tokens_minted - lp_tokens
                        && p.xlm_deposited == sat_sub_i128(q.xlm_deposited as int, x as int)
                        && p.usdc_deposited == sat_sub_i128(q.usdc_deposited as int, u as int)
                    &&& Self::pool_frame(*old(self), *final(self), user@)
                },
            },
    {
        if self.kyc.require_verified(user).is_err() {
            return Err(PoolError::KycVerificationRequired);
        }
        if lp_tokens <= 0 {
            return Err(PoolError::LpAmountNotPositive);
        }
        let ukey = user.to_owned();
        let i = match self.positions.find(&ukey) {
            Some(i) => i,
            None => {
                return Err(PoolError::NoLpPosition);
            },
        };
        let ghost o = *self;
        proof {
            o.positions.lemma_keys();
            o.lemma_lp_bound(user@);
            lemma_codes_differ();
        }
        let mut pos = self.positions.at(i).1.copy_position();
        if pos.lp_tokens_minted < lp_tokens {
            return Err(PoolError::InsufficientLpTokens);
        }
        let current_xlm = self.xlm_liquidity;
        let current_usdc = self.usdc_liquidity;
        let total_lp_tokens = self.total_lp_tokens;
        if total_lp_tokens <= 0 {
            return Err(PoolError::NoLpTokensInPool);
        }
        let xlm_amount = withdrawal_amount(lp_tokens, current_xlm, total_lp_tokens);
        let usdc_amount = withdrawal_amount(lp_tokens, current_usdc, total_lp_tokens);
        if !(xlm_amount > 0 && usdc_amount > 0) {
            return Err(PoolError::AmountsNotPositive);
        }
        let max_xlm = pos.xlm_deposited;
        let max_usdc = pos.usdc_deposited;
        let cap_xlm = sat_mul(max_xlm, 101);
        let cap_usdc = sat_mul(max_usdc, 101);
        if cap_xlm < 0 || xlm_amount > cap_xlm / 100 || cap_usdc < 0 || usdc_amount > cap_usdc / 100 {
            proof {
                if cap_xlm < 0 {
                    assert(cap_xlm / 100 < xlm_amount);
                }
                if cap_usdc < 0 {
                    assert(cap_usdc / 100 < usdc_amount);
                }
            }
            return Err(PoolError::RemovalExceedsDeposit);
        }
        self.xlm_liquidity = sat_sub(current_xlm, xlm_amount);
        self.usdc_liquidity = sat_sub(current_usdc, usdc_amount);
        let xlm_key = Self::balance_key(xlm_key(), user);
        let usdc_key = Self::balance_key(usdc_key(), user);
        let user_xlm = self.read_balance(&xlm_key);
        let user_usdc = self.read_balance(&usdc_key);
        self.balances.insert(xlm_key, user_xlm + xlm_amount);
        self.balances.insert(usdc_key, user_usdc + usdc_amount);
        pos.lp_tokens_minted = pos.lp_tokens_minted - lp_tokens;
        pos.xlm_deposited = sat_sub(pos.xlm_deposited, xlm_amount);
        pos.usdc_deposited = sat_sub(pos.usdc_deposited, usdc_amount);
        let ghost np = pos;
        self.positions.replace_at(i, pos);
        proof {
            let f = |p: (String, LPPosition)| pos_lp(p);
            lemma_sum_update(o.positions.pairs(), i as int, (o.positions.pairs()[i as int].0, np), f);
            assert forall|j: int| 0 <= j < self.positions.pairs().len() implies (#[trigger] self.positions.pairs()[j]).1.lp_tokens_minted >= 0
                && self.positions.pairs()[j].1.lp_address@ == self.positions.pairs()[j].0@ by {
                if j != i {
                    assert(self.positions.pairs()[j] == o.positions.pairs()[j]);
                }
            }
        }
        self.total_lp_tokens = total_lp_tokens - lp_tokens;
        self.invalidate_query_cache();
        Ok((xlm_amount, usdc_amount))
    }

    /// The LP positions of `user`: its position if it has one.
    pub fn get_lp_positions(&self, user: &str) -> (v: Vec<LPPosition>)
        requires
            self.wf(),
        ensures
            match self.position(user@) {
                Some(p) => v@ == seq![p],
                None => v@ == Seq::<LPPosition>::empty(),
            },
    {
        let mut result: Vec<LPPosition> = Vec::new();
        let ukey = user.to_owned();
        match self.positions.get(&ukey) {
            Some(p) => {
                result.push(p.copy_position());
                assert(result@ =~= seq![*p]);
            },
            None => {
                assert(result@ =~= Seq::<LPPosition>::empty());
            },
        }
        result
    }

    /// Counts one cache lookup and returns the new hit ratio in basis points.
    pub fn record_cache_access(&mut self, hit: bool) -> (ratio: u32)
        ensures
            final(self).hits() == (if hit { sat_add_u64(old(self).hits() as int, 1) } else { old(self).hits() as int }),
            final(self).misses() == (if hit { old(self).misses() as int } else { sat_add_u64(old(self).misses() as int, 1) }),
            ratio == cache_ratio(final(self).hits(), final(self).misses()),
            *final(self) == (CounterContract {
                cache_hits: final(self).cache_hits,
                cache_misses: final(self).cache_misses,
                ..*old(self)
            }),
    {
        if hit {
            self.cache_hits = self.cache_hits.saturating_add(1);
        } else {
            self.cache_misses = self.cache_misses.saturating_add(1);
        }
        cache_ratio_bps(self.cache_hits, self.cache_misses)
    }

    /// Cache hits, misses and hit ratio in basis points.
    pub fn get_cache_stats(&self) -> (r: (u64, u64, u32))
        ensures
            r.0 == self.hits(),
            r.1 == self.misses(),
            r.2 == cache_ratio(self.hits(), self.misses()),
    {
        (self.cache_hits, self.cache_misses, cache_ratio_bps(self.cache_hits, self.cache_misses))
    }

    /// Writes the contract version if none was stored yet.
    pub fn initialize(&mut self)
        ensures
            final(self).stored_version() == (if old(self).stored_version() == 0 { CONTRACT_VERSION } else { old(self).stored_version() }),
            *final(self) == (CounterContract { version: final(self).version, ..*old(self) }),
    {
        if self.version == 0 {
            self.version = CONTRACT_VERSION;
        }
    }

    /// The stored contract version (0 before `initialize`).
    pub fn get_contract_version(&self) -> (v: u32)
        ensures
            v == self.stored_version(),
    {
        self.version
    }

    /// The LP tokens outstanding are never negative, and every position
    /// holds between zero and all of them.
    pub proof fn law_position_within_supply(&self, user: Seq<char>)
        requires
            self.wf(),
        ensures
            self.total_lp() >= 0,
            self.position(user) matches Some(p) ==> 0 <= p.lp_tokens_minted <= self.total_lp(),
    {
        self.lemma_lp_bound(user);
    }

    /// Alias of `balance_of`.
    pub fn get_balance(&self, token: &str, owner: &str) -> (b: i128)
        requires
            self.wf(),
        ensures
            b == self.bal(token@, owner@),
    {
        self.balance_of(token, owner)
    }

    /// Pauses trading.
    pub fn pause_trading(&mut self) -> (r: bool)
        ensures
            r,
            final(self).trading_paused,
            *final(self) == (CounterContract { trading_paused: true, ..*old(self) }),
    {
        self.trading_paused = true;
        true
    }

    /// Resumes trading.
    pub fn resume_trading(&mut self) -> (r: bool)
        ensures
            r,
            !final(self).trading_paused,
            *final(self) == (CounterContract { trading_paused: false, ..*old(self) }),
    {
        self.trading_paused = false;
        true
    }

    /// Makes `new_admin` the admin.
    pub fn set_admin(&mut self, new_admin: &str)
        requires
            old(self).wf(),
        ensures
            final(self).wf(),
            final(self).kyc.admin_of() == new_admin@,
            final(self).kyc.operator_list() == old(self).kyc.operator_list(),
            forall|v: Seq<char>| #[trigger] final(self).kyc.stored(v) == old(self).kyc.stored(v),
            *final(self) == (CounterContract { kyc: final(self).kyc, ..*old(self) }),
    {
        self.kyc.replace_admin(new_admin);
    }

    /// The cache lifetime in seconds (60 until set).
    pub open spec fn ttl(&self) -> u64 {
        match self.cache_ttl {
            Some(t) => t,
            None => DEFAULT_CACHE_TTL_SECONDS,
        }
    }

    /// The cache lifetime in seconds.
    pub fn get_cache_ttl(&self) -> (t: u64)
        ensures
            t == self.ttl(),
    {
        match self.cache_ttl {
            Some(t) => t,
            None => DEFAULT_CACHE_TTL_SECONDS,
        }
    }

    /// Sets the cache lifetime (admin only).
    pub fn set_cache_ttl(&mut self, caller: &str, ttl_seconds: u64) -> (r: Result<(), PoolError>)
        requires
            old(self).wf(),
        ensures
            final(self).wf(),
            caller@ != old(self).kyc.admin_of() ==> r == Err::<(), PoolError>(PoolError::Unauthorized) && *final(self) == *old(self),
            caller@ == old(self).kyc.admin_of() ==> r is Ok
                && *final(self) == (CounterContract { cache_ttl: Some(ttl_seconds), ..*old(self) }),
    {
        if !self.kyc.is_admin(caller) {
            return Err(PoolError::Unauthorized);
        }
        self.cache_ttl = Some(ttl_seconds);
        Ok(())
    }

    /// Whether a result cached at `cached_at` is still valid at `now`.
    pub fn cache_is_fresh(&self, cached_at: u64, now: u64) -> (b: bool)
        ensures
            b == self.fresh_at(cached_at, now),
    {
        now.saturating_sub(cached_at) <= self.get_cache_ttl()
    }
    /// The trade count and PnL of `user` at `now`, answered from the cache
    /// while the cached entry is fresh; otherwise `current`, the summary the
    /// portfolio gives now, is returned and cached. Hits and misses are
    /// counted.
    pub fn get_portfolio(&mut self, user: &str, now: u64, current: (u32, i128)) -> (r: (u32, i128))
        requires
            old(self).wf(),
        ensures
            final(self).wf(),
            match old(self).cached_portfolio(user@) {
                Some(e) if old(self).fresh_at(e.cached_at, now) => {
                    &&& r == (e.trades, e.pnl)
                    &&& final(self).hits() == sat_add_u64(old(self).hits() as int, 1)
                    &&& *final(self) == (CounterContract { cache_hits: final(self).cache_hits, ..*old(self) })
                },
                _ => {
                    &&& r == current
                    &&& final(self).misses() == sat_add_u64(old(self).misses() as int, 1)
                    &&& final(self).cached_portfolio(user@) == Some(
                        CachedPortfolio { trades: current.0, pnl: current.1, cached_at: now },
                    )
                    &&& forall|v: Seq<char>| v != user@ ==> #[trigger] final(self).cached_portfolio(v)
                        == old(self).cached_portfolio(v)
                    &&& *final(self) == (CounterContract {
                        cache_misses: final(self).cache_misses,
                        portfolio_cache: final(self).portfolio_cache,
                        ..*old(self)
                    })
                },
            },
    {
        let key = user.to_owned();
        match self.portfolio_cache.get(&key) {
            Some(entry) => {
                if self.cache_is_fresh(entry.cached_at, now) {
                    let value = (entry.trades, entry.pnl);
                    self.record_cache_access(true);
                    return value;
                }
            },
            None => {},
        }
        self.record_cache_access(false);
        self.portfolio_cache.insert(key, CachedPortfolio { trades: current.0, pnl: current.1, cached_at: now });
        current
    }

    /// The leaderboard cut to `min(limit, 100)` entries at `now`, answered
    /// from the cache while it is fresh; otherwise `current`, the top
    /// hundred the portfolio gives now, is cached and cut. Hits and misses
    /// are counted.
    pub fn get_top_traders(&mut self, limit: u32, now: u64, current: Vec<(String, i128)>) -> (r: Vec<(String, i128)>)
        ensures
            match old(self).top_traders_cache {
                Some(c) if old(self).fresh_at(c.cached_at, now) => {
                    &&& r@ == limited(c.traders@, limit)
                    &&& final(self).hits() == sat_add_u64(old(self).hits() as int, 1)
                    &&& *final(self) == (CounterContract { cache_hits: final(self).cache_hits, ..*old(self) })
                },
                _ => {
                    &&& r@ == limited(current@, limit)
                    &&& final(self).misses() == sat_add_u64(old(self).misses() as int, 1)
                    &&& final(self).top_traders_cache matches Some(c) && c.traders@ == current@ && c.cached_at == now
                    &&& *final(self) == (CounterContract {
                        cache_misses: final(self).cache_misses,
                        top_traders_cache: final(self).top_traders_cache,
                        ..*old(self)
                    })
                },
            },
    {
        let hit = match &self.top_traders_cache {
            Some(c) => self.cache_is_fresh(c.cached_at, now),
            None => false,
        };
        if hit {
            let result = match &self.top_traders_cache {
                Some(c) => apply_trader_limit(&c.traders, limit),
                None => Vec::new(),
            };
            self.record_cache_access(true);
            return result;
        }
        self.record_cache_access(false);
        let result = apply_trader_limit(&current, limit);
        self.top_traders_cache = Some(CachedTopTraders { traders: current, cached_at: now });
        result
    }

    /// Empties the query cache (admin only).
    pub fn clear_cache(&mut self, caller: &str) -> (r: Result<(), PoolError>)
        requires
            old(self).wf(),
        ensures
            final(self).wf(),
            caller@ != old(self).kyc.admin_of() ==> r == Err::<(), PoolError>(PoolError::Unauthorized) && *final(self) == *old(self),
            caller@ == old(self).kyc.admin_of() ==> {
                &&& r is Ok
                &&& final(self).caches_cleared()
                &&& *final(self) == (CounterContract {
                    portfolio_cache: final(self).portfolio_cache,
                    top_traders_cache: None,
                    ..*old(self)
                })
            },
    {
        if !self.kyc.is_admin(caller) {
            return Err(PoolError::Unauthorized);
        }
        self.invalidate_query_cache();
        Ok(())
    }

    /// Sets the slippage bound in basis points.
    pub fn set_max_slippage_bps(&mut self, bps: u32)
        ensures
            *final(self) == (CounterContract { max_slippage_bps: Some(bps), ..*old(self) }),
    {
        self.max_slippage_bps = Some(bps);
    }

    /// Whether `user` passed KYC.
    pub open spec fn verified(&self, user: Seq<char>) -> bool {
        self.kyc.status_of(user) == KYCStatus::Verified
    }

    fn kyc_refusal() -> (s: String)
        ensures
            s@ == kyc_required_text(),
    {
        String::from_str("KYC_VERIFICATION_REQUIRED")
    }

    /// Stakes `amount` of `user` for `duration_days` at `now`, as
    /// `StakingBonusManager::stake` does; users without verified KYC are
    /// refused and nothing changes.
    pub fn stake(&mut self, user: &str, amount: i128, duration_days: u32, now: u64) -> (r: Result<u32, String>)
        requires
            old(self).wf(),
            old(self).verified(user@) ==> StakingBonusManager::stake_pre(old(self).staking, user@, amount, duration_days, now),
        ensures
            final(self).wf(),
            !old(self).verified(user@) ==> (r matches Err(m) && m@ == kyc_required_text()) && *final(self) == *old(self),
            old(self).verified(user@) ==> StakingBonusManager::stake_post(
                old(self).staking,
                final(self).staking,
                user@,
                amount,
                duration_days,
                now,
                r,
            ),
            *final(self) == (CounterContract { staking: final(self).staking, ..*old(self) }),
    {
        if !self.kyc.is_verified(user) {
            return Err(Self::kyc_refusal());
        }
        self.staking.stake(user, amount, duration_days, now)
    }

    /// Claims at `now` the due bonuses of `user`, as
    /// `StakingBonusManager::claim_bonuses` does; users without verified KYC
    /// are refused and nothing changes.
    pub fn claim_staking_bonuses(&mut self, user: &str, now: u64) -> (r: Result<i128, String>)
        requires
            old(self).wf(),
            old(self).verified(user@) ==> StakingBonusManager::claim_bonuses_pre(old(self).staking, user@, now),
        ensures
            final(self).wf(),
            !old(self).verified(user@) ==> (r matches Err(m) && m@ == kyc_required_text()) && *final(self) == *old(self),
            old(self).verified(user@) ==> StakingBonusManager::claim_bonuses_post(
                old(self).staking,
                final(self).staking,
                user@,
                now,
                r,
            ),
            *final(self) == (CounterContract { staking: final(self).staking, ..*old(self) }),
    {
        if !self.kyc.is_verified(user) {
            return Err(Self::kyc_refusal());
        }
        self.staking.claim_bonuses(user, now)
    }

    /// Pays back at `now` the principal of stake `stake_id` of `user`, as
    /// `StakingBonusManager::claim_stake` does; users without verified KYC
    /// are refused and nothing changes.
    pub fn claim_stake(&mut self, user: &str, stake_id: u32, now: u64) -> (r: Result<i128, String>)
        requires
            old(self).wf(),
        ensures
            final(self).wf(),
            !old(self).verified(user@) ==> (r matches Err(m) && m@ == kyc_required_text()) && *final(self) == *old(self),
            old(self).verified(user@) ==> StakingBonusManager::claim_stake_post(
                old(self).staking,
                final(self).staking,
                user@,
                stake_id,
                now,
                r,
            ),
            *final(self) == (CounterContract { staking: final(self).staking, ..*old(self) }),
    {
        if !self.kyc.is_verified(user) {
            return Err(Self::kyc_refusal());
        }
        self.staking.claim_stake(user, stake_id, now)
    }

    /// Ends stake `stake_id` of `user` early, as
    /// `StakingBonusManager::unstake_early` does; users without verified KYC
    /// are refused and nothing changes.
    pub fn unstake_early(&mut self, user: &str, stake_id: u32) -> (r: Result<(i128, i128), String>)
        requires
            old(self).wf(),
            old(self).verified(user@) ==> StakingBonusManager::unstake_early_pre(old(self).staking, user@, stake_id),
        ensures
            final(self).wf(),
            !old(self).verified(user@) ==> (r matches Err(m) && m@ == kyc_required_text()) && *final(self) == *old(self),
            old(self).verified(user@) ==> StakingBonusManager::unstake_early_post(
                old(self).staking,
                final(self).staking,
                user@,
                stake_id,
                r,
            ),
            *final(self) == (CounterContract { staking: final(self).staking, ..*old(self) }),
    {
        if !self.kyc.is_verified(user) {
            return Err(Self::kyc_refusal());
        }
        self.staking.unstake_early(user, stake_id)
    }

    /// Every stake of `user`, in the order made.
    pub fn get_user_stakes(&self, user: &str) -> (v: Vec<StakeRecord>)
        requires
            self.wf(),
        ensures
            v@ == self.staking.stakes_of(user@),
    {
        self.staking.get_user_stakes(user)
    }

    /// Stake `stake_id` of `user`.
    pub fn get_stake_details(&self, user: &str, stake_id: u32) -> (r: Result<StakeRecord, String>)
        requires
            self.wf(),
        ensures
            stake_id < self.staking.stakes_of(user@).len() ==> r == Ok::<StakeRecord, String>(
                self.staking.stakes_of(user@)[stake_id as int],
            ),
            stake_id >= self.staking.stakes_of(user@).len() ==> (r matches Err(m) && m@ == "Invalid stake ID"@),
    {
        self.staking.get_stake_details(user, stake_id)
    }

    /// Principal of the active stakes of `user`.
    pub fn get_user_total_staked(&self, user: &str) -> (t: i128)
        requires
            self.wf(),
        ensures
            t == active_sum(self.staking.stakes_of(user@)),
    {
        self.staking.get_user_total_staked(user)
    }

    /// Bonuses earned by the stakes of `user`.
    pub fn get_user_earned_bonuses(&self, user: &str) -> (t: i128)
        requires
            self.wf(),
        ensures
            t == earned_sum(self.staking.stakes_of(user@)),
    {
        self.staking.get_user_earned_bonuses(user)
    }

    /// Bonuses `user` has claimed.
    pub fn get_user_claimed_bonuses(&self, user: &str) -> (t: i128)
        requires
            self.wf(),
        ensures
            t == claimed_sum(self.staking.stakes_of(user@)),
    {
        self.staking.get_user_claimed_bonuses(user)
    }

    /// Bonuses of `user` that can be claimed at `now`.
    pub fn get_user_pending_bonuses(&self, user: &str, now: u64) -> (t: i128)
        requires
            self.wf(),
        ensures
            t == pending_sum(self.staking.stakes_of(user@), now),
    {
        self.staking.get_user_pending_bonuses(user, now)
    }

    /// Principal staked, bonuses claimed and distributions run, over all users.
    pub fn get_staking_statistics(&self) -> (r: (i128, i128, u64))
        ensures
            r.0 == self.staking.total_staked_spec(),
            r.1 == self.staking.total_distributed_spec(),
            r.2 == self.staking.history().len(),
    {
        self.staking.get_statistics()
    }

    /// The distribution records, oldest first.
    pub fn get_distribution_history(&self) -> (v: Vec<DistributionRecord>)
        ensures
            v@ == self.staking.history(),
    {
        self.staking.get_distribution_history()
    }

    /// Runs a bonus distribution at `now`, as
    /// `StakingBonusManager::execute_distribution` does.
    pub fn execute_staking_distribution(&mut self, now: u64) -> (r: Result<DistributionRecord, String>)
        requires
            old(self).wf(),
            StakingBonusManager::execute_distribution_pre(old(self).staking, now),
        ensures
            final(self).wf(),
            StakingBonusManager::execute_distribution_post(old(self).staking, final(self).staking, now, r),
            *final(self) == (CounterContract { staking: final(self).staking, ..*old(self) }),
    {
        self.staking.execute_distribution(now)
    }

    /// Adds a KYC operator, as `KYCSystem::add_operator` does.
    pub fn kyc_add_operator(&mut self, admin: &str, operator: &str) -> (r: Result<(), KYCError>)
        requires
            old(self).wf(),
        ensures
            final(self).wf(),
            KYCSystem::add_operator_post(old(self).kyc, final(self).kyc, admin@, operator@, r),
            *final(self) == (CounterContract { kyc: final(self).kyc, ..*old(self) }),
    {
        self.kyc.add_operator(admin, operator)
    }

    /// Removes a KYC operator, as `KYCSystem::remove_operator` does.
    pub fn kyc_remove_operator(&mut self, admin: &str, operator: &str) -> (r: Result<(), KYCError>)
        requires
            old(self).wf(),
        ensures
            final(self).wf(),
            KYCSystem::remove_operator_post(old(self).kyc, final(self).kyc, admin@, operator@, r),
            *final(self) == (CounterContract { kyc: final(self).kyc, ..*old(self) }),
    {
        self.kyc.remove_operator(admin, operator)
    }

    /// Whether `address` may act as a KYC operator.
    pub fn kyc_is_operator(&self, address: &str) -> (b: bool)
        ensures
            b == self.kyc.is_op(address@),
    {
        self.kyc.is_operator(address)
    }

    /// Submits the KYC of `user` at `now`, as `KYCSystem::submit_kyc` does.
    pub fn kyc_submit(&mut self, user: &str, now: u64) -> (r: Result<(), KYCError>)
        requires
            old(self).wf(),
            KYCSystem::submit_kyc_pre(old(self).kyc, user@, now),
        ensures
            final(self).wf(),
            KYCSystem::submit_kyc_post(old(self).kyc, final(self).kyc, user@, now, r),
            *final(self) == (CounterContract { kyc: final(self).kyc, ..*old(self) }),
    {
        self.kyc.submit_kyc(user, now)
    }

    /// Resubmits the KYC of `user` at `now`, as `KYCSystem::resubmit_kyc` does.
    pub fn kyc_resubmit(&mut self, user: &str, now: u64) -> (r: Result<(), KYCError>)
        requires
            old(self).wf(),
        ensures
            final(self).wf(),
            KYCSystem::resubmit_kyc_post(old(self).kyc, final(self).kyc, user@, now, r),
            *final(self) == (CounterContract { kyc: final(self).kyc, ..*old(self) }),
    {
        self.kyc.resubmit_kyc(user, now)
    }

    /// Moves `user` to `new_status` on behalf of `operator` at `now`, as
    /// `KYCSystem::update_status` does.
    pub fn kyc_update_status(&mut self, operator: &str, user: &str, new_status: KYCStatus, reason: Option<String>, now: u64) -> (r: Result<(), KYCError>)
        requires
            old(self).wf(),
        ensures
            final(self).wf(),
            KYCSystem::update_status_post(old(self).kyc, final(self).kyc, operator@, user@, new_status, reason, now, r),
            *final(self) == (CounterContract { kyc: final(self).kyc, ..*old(self) }),
    {
        self.kyc.update_status(operator, user, new_status, reason, now)
    }

    /// The KYC record of `user` at `now`.
    pub fn kyc_get_record(&self, user: &str, now: u64) -> (r: KYCRecord)
        requires
            self.wf(),
        ensures
            r == self.kyc.record_at(user@, now),
    {
        self.kyc.get_record(user, now)
    }

    /// Whether `user` passed KYC.
    pub fn kyc_is_verified(&self, user: &str) -> (b: bool)
        requires
            self.wf(),
        ensures
            b == self.verified(user@),
    {
        self.kyc.is_verified(user)
    }

    /// Sets the override wait, as `KYCSystem::set_timelock_duration` does.
    pub fn kyc_set_timelock_duration(&mut self, admin: &str, duration: u64) -> (r: Result<(), KYCError>)
        requires
            old(self).wf(),
        ensures
            final(self).wf(),
            KYCSystem::set_timelock_duration_post(old(self).kyc, final(self).kyc, admin@, duration, r),
            *final(self) == (CounterContract { kyc: final(self).kyc, ..*old(self) }),
    {
        self.kyc.set_timelock_duration(admin, duration)
    }

    /// The override wait in seconds.
    pub fn kyc_get_timelock_duration(&self) -> (d: u64)
        ensures
            d == self.kyc.timelock(),
    {
        self.kyc.get_timelock_duration()
    }

    /// Proposes an override of the terminal status of `user`, as
    /// `KYCSystem::propose_override` does.
    pub fn kyc_propose_override(&mut self, admin: &str, user: &str, new_status: KYCStatus, reason: &str, now: u64) -> (r: Result<u64, KYCError>)
        requires
            old(self).wf(),
            KYCSystem::propose_override_pre(old(self).kyc, admin@, user@, new_status, reason@, now),
        ensures
            final(self).wf(),
            KYCSystem::propose_override_post(old(self).kyc, final(self).kyc, admin@, user@, new_status, reason@, now, r),
            *final(self) == (CounterContract { kyc: final(self).kyc, ..*old(self) }),
    {
        self.kyc.propose_override(admin, user, new_status, reason, now)
    }

    /// Runs override `override_id` at `now`, as `KYCSystem::execute_override` does.
    pub fn kyc_execute_override(&mut self, admin: &str, override_id: u64, now: u64) -> (r: Result<(), KYCError>)
        requires
            old(self).wf(),
        ensures
            final(self).wf(),
            KYCSystem::execute_override_post(old(self).kyc, final(self).kyc, admin@, override_id, now, r),
            *final(self) == (CounterContract { kyc: final(self).kyc, ..*old(self) }),
    {
        self.kyc.execute_override(admin, override_id, now)
    }

    /// The override stored under `override_id`, if any.
    pub fn kyc_get_override(&self, override_id: u64) -> (r: Option<GovernanceOverride>)
        requires
            self.wf(),
        ensures
            r == self.kyc.override_of(override_id),
    {
        self.kyc.get_override(override_id)
    }
}

} // verus!
