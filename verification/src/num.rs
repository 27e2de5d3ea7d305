//! Fixed-point arithmetic helpers. The simulation measures positions and
//! hit points in integer milli-units and time in integer milliseconds, so a
//! stat applied over a tick is `value * dt / 1000` with truncation toward
//! zero, and every running total saturates at the i64 range instead of
//! overflowing.

use vstd::prelude::*;
use vstd::arithmetic::power2::pow2;

verus! {

/// The i64 range, as the saturation bounds of every running total.
pub open spec fn clip_i64(x: int) -> int {
    if x > i64::MAX {
        i64::MAX as int
    } else if x < i64::MIN {
        i64::MIN as int
    } else {
        x
    }
}

/// What a per-second value contributes over `dt` milliseconds: the product
/// scaled down by 1000, truncated toward zero, saturated at the i64 range.
pub open spec fn scale_milli(v: int, dt: int) -> int {
    if v >= 0 {
        clip_i64(v * dt / 1000)
    } else {
        clip_i64(-((-v) * dt / 1000))
    }
}

/// Saturating addition on i64.
pub fn sat_add_i64(a: i64, b: i64) -> (r: i64)
    ensures
        r == clip_i64(a + b),
{
    match a.checked_add(b) {
        Some(v) => v,
        None => if b > 0 {
            i64::MAX
        } else {
            i64::MIN
        },
    }
}

/// Saturating subtraction on i64.
pub fn sat_sub_i64(a: i64, b: i64) -> (r: i64)
    ensures
        r == clip_i64(a - b),
{
    match a.checked_sub(b) {
        Some(v) => v,
        None => if b > 0 {
            i64::MIN
        } else {
            i64::MAX
        },
    }
}

/// `v * dt / 1000`, truncated toward zero and saturated: how far a unit
/// moves, or how much damage it deals, during one `dt`-millisecond tick.
pub fn scale_by_dt(v: i64, dt_ms: u32) -> (r: i64)
    ensures
        r == scale_milli(v as int, dt_ms as int),
{
    if v >= 0 {
        proof {
            lemma_mul_small(v as int, dt_ms as int);
        }
        let m: u128 = (v as u128) * (dt_ms as u128);
        let s: u128 = m / 1000;
        if s > i64::MAX as u128 {
            i64::MAX
        } else {
            s as i64
        }
    } else {
        let mag: u128 = (-(v as i128)) as u128;
        proof {
            lemma_mul_small(mag as int, dt_ms as int);
        }
        let m: u128 = mag * (dt_ms as u128);
        let s: u128 = m / 1000;
        if s >= 0x8000000000000000u128 {
            i64::MIN
        } else {
            -(s as i64)
        }
    }
}

/// The product of a value up to 2^64 and a value up to 2^32 stays far below
/// the u128 range.
proof fn lemma_mul_small(a: int, b: int)
    requires
        0 <= a <= 0x10000000000000000,
        0 <= b <= 0x100000000,
    ensures
        0 <= a * b <= 0x1000000000000000000000000,
{
    assert(a * b <= 0x10000000000000000 * 0x100000000) by (nonlinear_arith)
        requires
            0 <= a <= 0x10000000000000000,
            0 <= b <= 0x100000000,
    ;
    assert(a * b >= 0) by (nonlinear_arith)
        requires
            0 <= a,
            0 <= b,
    ;
}

/// Grows a non-negative value by ten percent, flooring, saturated: the
/// base-HP cap after one `base_hp` purchase.
pub fn grow_by_tenth(v: i64) -> (r: i64)
    requires
        v >= 0,
    ensures
        r == clip_i64(v * 11 / 10),
        r >= v,
{
    let m: u128 = (v as u128) * 11;
    let s: u128 = m / 10;
    if s > i64::MAX as u128 {
        i64::MAX
    } else {
        s as i64
    }
}

/// A base stat raised by a percentage bonus: `base * (100 + bonus) / 100`.
pub fn percent_boost(base: u64, bonus: u32) -> (r: u64)
    requires
        base <= 1_000_000,
    ensures
        r == base * (100 + bonus) / 100,
        r <= 43_000_000_000_000,
{
    proof {
        assert(0 <= base * (100 + bonus as int) <= 1_000_000 * 0x100000063)
            by (nonlinear_arith)
            requires
                0 <= base <= 1_000_000,
                0 <= bonus <= 0xffffffff,
        ;
        vstd::arithmetic::div_mod::lemma_div_is_ordered(
            base * (100 + bonus as int),
            4294967395000000,
            100,
        );
        vstd::arithmetic::div_mod::lemma_fundamental_div_mod_converse(
            4294967395000000,
            100,
            42949673950000,
            0,
        );
    }
    (((base as u128) * (100 + bonus as u128)) / 100) as u64
}

/// A percentage boost never shrinks the base.
pub proof fn lemma_boosted_at_least(base: int, bonus: int)
    requires
        base >= 0,
        bonus >= 0,
    ensures
        base * (100 + bonus) / 100 >= base,
{
    assert(base * (100 + bonus) >= base * 100) by (nonlinear_arith)
        requires
            base >= 0,
            bonus >= 0,
    ;
    vstd::arithmetic::div_mod::lemma_div_is_ordered(base * 100, base * (100 + bonus), 100);
    vstd::arithmetic::div_mod::lemma_div_by_multiple(base, 100);
}

/// A milli-multiplier of at least 1000 never shrinks the base.
pub proof fn lemma_multiplied_at_least(base: int, mult: int)
    requires
        base >= 0,
        mult >= 1000,
    ensures
        base * mult / 1000 >= base,
{
    assert(base * mult >= base * 1000) by (nonlinear_arith)
        requires
            base >= 0,
            mult >= 1000,
    ;
    vstd::arithmetic::div_mod::lemma_div_is_ordered(base * 1000, base * mult, 1000);
    vstd::arithmetic::div_mod::lemma_div_by_multiple(base, 1000);
}

/// A base stat scaled by a milli-multiplier: `base * mult_milli / 1000`.
pub fn apply_multiplier(base: u64, mult_milli: u64) -> (r: i64)
    requires
        base <= 1_000_000,
        mult_milli <= 300_000_000_000,
    ensures
        r == base * mult_milli / 1000,
        r <= 300_000_000_000_000,
{
    proof {
        assert(0 <= base * mult_milli <= 1_000_000 * 300_000_000_000) by (nonlinear_arith)
            requires
                0 <= base <= 1_000_000,
                0 <= mult_milli <= 300_000_000_000,
        ;
        vstd::arithmetic::div_mod::lemma_div_is_ordered(
            base * mult_milli,
            300_000_000_000_000_000,
            1000,
        );
        vstd::arithmetic::div_mod::lemma_fundamental_div_mod_converse(
            300_000_000_000_000_000,
            1000,
            300_000_000_000_000,
            0,
        );
    }
    (((base as u128) * (mult_milli as u128)) / 1000) as i64
}

/// The u32 range, as the saturation bound of the coin balance.
pub open spec fn clip_u32(x: int) -> int {
    if x > u32::MAX {
        u32::MAX as int
    } else if x < 0 {
        0
    } else {
        x
    }
}

/// The coin bounty for one kill: `floor(1 * (1 + coin_rate/100))`, never
/// below one coin.
pub fn kill_award(coin_rate: u32) -> (r: u32)
    ensures
        r == (100 + coin_rate) / 100,
        r >= 1,
{
    proof {
        vstd::arithmetic::div_mod::lemma_div_is_ordered(
            100 + coin_rate as int,
            0x100000063,
            100,
        );
        vstd::arithmetic::div_mod::lemma_fundamental_div_mod_converse(
            0x100000063,
            100,
            42949673,
            95,
        );
        vstd::arithmetic::div_mod::lemma_div_is_ordered(100, 100 + coin_rate as int, 100);
        vstd::arithmetic::div_mod::lemma_div_basics(100);
    }
    ((100u64 + coin_rate as u64) / 100) as u32
}

/// The coin bounty for clearing a stage: `max(10, 20 * stage / 2)`,
/// saturated at the coin type's ceiling.
pub open spec fn stage_award_spec(stage: int) -> int {
    let m = 10 * stage;
    if m > u32::MAX {
        u32::MAX as int
    } else if m < 10 {
        10
    } else {
        m
    }
}

/// Computes the stage-clear bounty.
pub fn stage_award(stage: u32) -> (r: u32)
    ensures
        r == stage_award_spec(stage as int),
{
    let m: u64 = 10u64 * (stage as u64);
    if m > u32::MAX as u64 {
        u32::MAX
    } else if m < 10 {
        10
    } else {
        m as u32
    }
}

/// A non-negative per-second value contributes a non-negative amount.
pub proof fn lemma_scale_nonneg(v: int, dt: int)
    requires
        v >= 0,
        dt >= 0,
    ensures
        scale_milli(v, dt) >= 0,
{
    vstd::arithmetic::mul::lemma_mul_nonnegative(v, dt);
    vstd::arithmetic::div_mod::lemma_div_pos_is_pos(v * dt, 1000);
}

/// A lane position pulled back into the battlefield, `[0, 1_000_000]`
/// milli-units.
pub open spec fn clamp_position(p: int) -> int {
    if p < 0 {
        0
    } else if p > 1_000_000 {
        1_000_000
    } else {
        p
    }
}

/// Clamps a position into the battlefield range.
pub fn clamp_pos(p: i64) -> (r: i64)
    ensures
        r == clamp_position(p as int),
{
    if p < 0 {
        0
    } else if p > 1_000_000 {
        1_000_000
    } else {
        p
    }
}

/// The floor of the base-two logarithm.
pub open spec fn log2_floor(n: nat) -> nat
    decreases n,
{
    if n < 2 {
        0
    } else {
        1 + log2_floor(n / 2)
    }
}

/// A piecewise-linear fixed-point approximation of the natural logarithm,
/// in milli-units: `693 * log2(n)` with linear interpolation between powers
/// of two.
pub open spec fn ln_milli(n: nat) -> int {
    let k = log2_floor(n);
    let p = pow2(k);
    693 * k + 693 * (n - p) / (p as int)
}

/// Computes `ln_milli` exactly for positive 32-bit inputs.
pub fn ln_milli_u32(n: u32) -> (r: u32)
    requires
        n >= 1,
    ensures
        r == ln_milli(n as nat),
        r < 22_200,
{
    let mut v: u32 = n;
    let mut k: u32 = 0;
    let mut p: u32 = 1;
    proof {
        vstd::arithmetic::div_mod::lemma_div_basics(n as int);
        assert(pow2(0) == 1) by {
            vstd::arithmetic::power2::lemma2_to64();
        }
    }
    while v >= 2
        invariant
            1 <= v,
            1 <= p,
            p == pow2(k as nat),
            v == n as int / p as int,
            k <= 31,
        decreases v,
    {
        proof {
            vstd::arithmetic::div_mod::lemma_fundamental_div_mod(n as int, p as int);
            vstd::arithmetic::div_mod::lemma_mod_division_less_than_divisor(n as int, p as int);
            assert(n >= p * 2) by (nonlinear_arith)
                requires
                    n as int == p as int * (n as int / p as int) + n as int % p as int,
                    n as int % p as int >= 0,
                    n as int / p as int >= 2,
                    p >= 1,
            ;
            vstd::arithmetic::div_mod::lemma_div_denominator(n as int, p as int, 2);
            assert(pow2((k + 1) as nat) == 2 * pow2(k as nat)) by {
                vstd::arithmetic::power2::lemma_pow2_adds(k as nat, 1);
                vstd::arithmetic::power2::lemma2_to64();
            }
            assert(k + 1 <= 31 && p < 0x80000000) by {
                vstd::arithmetic::power2::lemma2_to64();
                if k == 31 {
                    assert(p == pow2(31) == 0x80000000);
                    assert(false);
                }
                vstd::arithmetic::power2::lemma_pow2_strictly_increases(k as nat, 31);
            }
        }
        v = v / 2;
        k = k + 1;
        p = p * 2;
    }
    proof {
        assert(log2_floor(v as nat) == 0);
        lemma_log2_div_chain(n as nat, k as nat, p as nat);
        vstd::arithmetic::div_mod::lemma_fundamental_div_mod(n as int, p as int);
        vstd::arithmetic::div_mod::lemma_mod_division_less_than_divisor(n as int, p as int);
        assert(p <= n < 2 * p) by (nonlinear_arith)
            requires
                n as int == p as int * (n as int / p as int) + n as int % p as int,
                0 <= n as int % p as int,
                (n as int % p as int) < p as int,
                n as int / p as int == 1,
        ;
    }
    let frac: u64 = (693u64 * ((n - p) as u64)) / (p as u64);
    proof {
        assert(693 * (n - p) < 693 * p) by (nonlinear_arith)
            requires
                0 <= n as int - p as int,
                (n as int - p as int) < p as int,
        ;
        vstd::arithmetic::div_mod::lemma_multiply_divide_lt(
            693 * (n as int - p as int),
            p as int,
            693,
        );
    }
    (693u64 * (k as u64) + frac) as u32
}

/// `log2_floor(n / 2^k)` recovers `log2_floor(n)` minus `k`.
proof fn lemma_log2_div_chain(n: nat, k: nat, p: nat)
    requires
        p == pow2(k),
        n as int / p as int == 1,
    ensures
        log2_floor(n) == k,
    decreases k,
{
    vstd::arithmetic::power2::lemma_pow2_pos(k);
    if k == 0 {
        assert(pow2(0) == 1) by {
            vstd::arithmetic::power2::lemma2_to64();
        }
        vstd::arithmetic::div_mod::lemma_div_basics(n as int);
        assert(n == 1);
    } else {
        let k1 = (k - 1) as nat;
        let p1 = pow2(k1);
        vstd::arithmetic::power2::lemma_pow2_pos(k1);
        assert(p == 2 * p1) by {
            vstd::arithmetic::power2::lemma_pow2_adds(k1, 1);
            vstd::arithmetic::power2::lemma2_to64();
        }
        vstd::arithmetic::div_mod::lemma_div_denominator(n as int, 2, p1 as int);
        lemma_log2_half(n, p1);
        lemma_log2_div_chain(n / 2, k1, p1);
    }
}

/// Halving shifts the floored logarithm down by one, for n >= 2.
proof fn lemma_log2_half(n: nat, p1: nat)
    requires
        1 <= p1,
        (n as int / 2) / (p1 as int) == 1,
    ensures
        n >= 2,
        log2_floor(n) == 1 + log2_floor(n / 2),
{
    vstd::arithmetic::div_mod::lemma_fundamental_div_mod(n as int / 2, p1 as int);
    vstd::arithmetic::div_mod::lemma_mod_division_less_than_divisor(n as int / 2, p1 as int);
    assert(n as int / 2 >= p1) by (nonlinear_arith)
        requires
            n as int / 2 == p1 as int * ((n as int / 2) / (p1 as int)) + (n as int / 2) % (
            p1 as int),
            (n as int / 2) % (p1 as int) >= 0,
            (n as int / 2) / (p1 as int) == 1,
            p1 >= 1,
    ;
    vstd::arithmetic::div_mod::lemma_fundamental_div_mod(n as int, 2);
    assert(n >= 2);
    assert(log2_floor(n) == 1 + log2_floor(n / 2));
}

} // verus!
