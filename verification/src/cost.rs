//! The geometric upgrade-cost curve. One purchase of any upgrade axis at
//! level `L` costs exactly `floor(3000 * 1.2^L)`, which over the integers is
//! `(3000 * 6^L) / 5^L` with flooring division. The executable computation
//! carries the numerator exactly in four 64-bit limbs, so the result is the
//! mathematical floor, not a float approximation.

use vstd::prelude::*;
use vstd::arithmetic::power::{pow, lemma_pow_positive, lemma_pow_increases, lemma_pow_adds};
use vstd::arithmetic::div_mod::{
    lemma_fundamental_div_mod, lemma_fundamental_div_mod_converse, lemma_div_is_ordered,
    lemma_div_denominator, lemma_div_by_multiple, lemma_div_multiples_vanish,
    lemma_hoist_over_denominator, lemma_mod_division_less_than_divisor,
};

verus! {

/// The exact cost of raising an axis that currently sits at `level`:
/// `floor(3000 * (6/5)^level)`.
pub open spec fn upgrade_cost(level: nat) -> int {
    3000 * pow(6, level) / pow(5, level)
}

/// Raising `b1` and `b2` to the same power preserves their order.
proof fn lemma_pow_base_le(b1: int, b2: int, e: nat)
    requires
        1 <= b1 <= b2,
    ensures
        1 <= pow(b1, e) <= pow(b2, e),
    decreases e,
{
    reveal(pow);
    if e > 0 {
        lemma_pow_base_le(b1, b2, (e - 1) as nat);
        assert(pow(b1, e) == b1 * pow(b1, (e - 1) as nat));
        assert(pow(b2, e) == b2 * pow(b2, (e - 1) as nat));
        assert(b1 * pow(b1, (e - 1) as nat) <= b2 * pow(b2, (e - 1) as nat))
            by (nonlinear_arith)
            requires
                1 <= b1 <= b2,
                1 <= pow(b1, (e - 1) as nat) <= pow(b2, (e - 1) as nat),
        ;
        assert(1 * 1 <= b1 * pow(b1, (e - 1) as nat)) by (nonlinear_arith)
            requires
                1 <= b1,
                1 <= pow(b1, (e - 1) as nat),
        ;
    }
}

/// No level is ever cheaper than the starting price.
pub proof fn lemma_cost_at_least_base(level: nat)
    ensures
        upgrade_cost(level) >= 3000,
{
    let p5 = pow(5, level);
    let p6 = pow(6, level);
    lemma_pow_positive(5, level);
    lemma_pow_base_le(5, 6, level);
    assert(3000 * p5 <= 3000 * p6) by (nonlinear_arith)
        requires
            p5 <= p6,
    ;
    lemma_div_is_ordered(3000 * p5, 3000 * p6, p5);
    assert(p5 * 3000 == 3000 * p5);
    lemma_div_multiples_vanish(3000, p5);
}

/// The cost curve is strictly increasing in the level: each purchase makes
/// the next one on the same axis strictly dearer.
pub proof fn lemma_cost_strictly_increases(level: nat)
    ensures
        upgrade_cost(level + 1) > upgrade_cost(level),
{
    reveal(pow);
    let p5 = pow(5, level);
    let p6 = pow(6, level);
    lemma_pow_positive(5, level);
    lemma_pow_positive(6, level);
    assert(pow(6, level + 1) == 6 * p6);
    assert(pow(5, level + 1) == 5 * p5);
    let n = 3000 * p6;
    let q = n / p5;
    let r = n % p5;
    lemma_fundamental_div_mod(n, p5);
    lemma_mod_division_less_than_divisor(n, p5);
    lemma_cost_at_least_base(level);
    assert(3000 * (6 * p6) == 6 * n) by (nonlinear_arith)
        requires
            n == 3000 * p6,
    ;
    assert(6 * n >= (6 * q) * p5) by (nonlinear_arith)
        requires
            n == p5 * q + r,
            r >= 0,
    ;
    lemma_div_is_ordered((6 * q) * p5, 6 * n, 5 * p5);
    lemma_div_denominator((6 * q) * p5, p5, 5);
    lemma_div_by_multiple(6 * q, p5);
    assert(((6 * q) * p5) / (5 * p5) == (6 * q) / 5);
    lemma_hoist_over_denominator(q, q, 5);
    assert(q + q * 5 == 6 * q);
    lemma_div_is_ordered(3000, q, 5);
    assert(upgrade_cost(level + 1) >= (6 * q) / 5);
    assert((6 * q) / 5 == q + q / 5);
    assert(q / 5 >= 600);
}

/// Costs never decrease as levels grow.
pub proof fn lemma_cost_monotonic(l1: nat, l2: nat)
    requires
        l1 <= l2,
    ensures
        upgrade_cost(l1) <= upgrade_cost(l2),
    decreases l2 - l1,
{
    if l1 < l2 {
        lemma_cost_strictly_increases((l2 - 1) as nat);
        lemma_cost_monotonic(l1, (l2 - 1) as nat);
    }
}

/// Four extra levels multiply the numerator by 6^4 = 1296, which outgrows
/// the denominator's 5^4 = 625 by more than a factor of two.
proof fn lemma_six_to_four_outgrows(k: nat)
    ensures
        pow(6, 4 * k) >= pow(2, k) * pow(5, 4 * k),
    decreases k,
{
    reveal_with_fuel(pow, 6);
    if k == 0 {
        assert(pow(6, 0) == 1 && pow(2, 0) == 1 && pow(5, 0) == 1);
    } else {
        let k1 = (k - 1) as nat;
        lemma_six_to_four_outgrows(k1);
        lemma_pow_adds(6, 4 * k1, 4);
        lemma_pow_adds(5, 4 * k1, 4);
        lemma_pow_adds(2, k1, 1);
        assert(pow(6, 4) == 1296);
        assert(pow(5, 4) == 625);
        assert(pow(2, 1) == 2);
        lemma_pow_positive(2, k1);
        lemma_pow_positive(5, 4 * k1);
        assert(pow(6, 4 * k1) * 1296 >= (pow(2, k1) * 2) * (pow(5, 4 * k1) * 625))
            by (nonlinear_arith)
            requires
                pow(6, 4 * k1) >= pow(2, k1) * pow(5, 4 * k1),
                pow(2, k1) > 0,
                pow(5, 4 * k1) > 0,
        ;
        assert(4 * k1 + 4 == 4 * k);
    }
}

/// From level 84 on, the exact cost no longer fits an unsigned 32-bit coin
/// balance, so no such purchase can ever succeed.
proof fn lemma_cost_outgrows_u32(level: nat)
    requires
        level >= 84,
    ensures
        upgrade_cost(level) > u32::MAX,
{
    let d = pow(5, 84);
    let n6 = pow(6, 84);
    lemma_pow_positive(5, 84);
    lemma_six_to_four_outgrows(21);
    vstd::arithmetic::power2::lemma2_to64();
    vstd::arithmetic::power2::lemma_pow2(21);
    assert(pow(2, 21) == 0x200000);
    assert(n6 >= 0x200000 * d);
    assert(3000 * n6 >= 3000 * (0x200000 * d)) by (nonlinear_arith)
        requires
            n6 >= 0x200000 * d,
    ;
    assert(3000 * (0x200000 * d) == 6291456000 * d) by (nonlinear_arith);
    lemma_div_is_ordered(0x100000000 * d, 3000 * n6, d);
    lemma_div_by_multiple(0x100000000, d);
    assert(0x100000000 * d == d * 0x100000000);
    lemma_cost_monotonic(84, level);
}

/// Five extra levels multiply the numerator by 6^5 = 7776, which stays
/// below 2^13 = 8192.
proof fn lemma_six_to_five_bounded(m: nat)
    ensures
        1 <= pow(6, 5 * m) <= pow(2, 13 * m),
    decreases m,
{
    reveal_with_fuel(pow, 15);
    if m == 0 {
        assert(pow(6, 0) == 1 && pow(2, 0) == 1);
    } else {
        let m1 = (m - 1) as nat;
        lemma_six_to_five_bounded(m1);
        lemma_pow_adds(6, 5 * m1, 5);
        lemma_pow_adds(2, 13 * m1, 13);
        assert(pow(6, 5) == 7776);
        assert(pow(2, 13) == 8192);
        assert(pow(6, 5 * m1) * 7776 <= pow(2, 13 * m1) * 8192) by (nonlinear_arith)
            requires
                1 <= pow(6, 5 * m1) <= pow(2, 13 * m1),
        ;
        assert(1 <= pow(6, 5 * m1) * 7776) by (nonlinear_arith)
            requires
                1 <= pow(6, 5 * m1),
        ;
        assert(5 * m1 + 5 == 5 * m);
        assert(13 * m1 + 13 == 13 * m);
    }
}

/// The numerator `3000 * 6^e` stays below 2^256 for every level the limb
/// computation is asked to handle.
proof fn lemma_numerator_fits(e: nat)
    requires
        e <= 84,
    ensures
        0 <= 3000 * pow(6, e)
            < 0x10000000000000000000000000000000000000000000000000000000000000000,
{
    lemma_pow_positive(6, e);
    lemma_pow_increases(6, e, 85);
    lemma_six_to_five_bounded(17);
    assert(5 * 17 == 85 && 13 * 17 == 221);
    assert(3000 * pow(6, e) <= 4096 * pow(2, 221)) by (nonlinear_arith)
        requires
            0 < pow(6, e) <= pow(6, 85),
            pow(6, 85) <= pow(2, 221),
    ;
    lemma_pow_positive(2, 221);
    lemma_pow_adds(2, 12, 221);
    reveal_with_fuel(pow, 13);
    assert(pow(2, 12) == 4096);
    assert(4096 * pow(2, 221) == pow(2, 233));
    vstd::arithmetic::power::lemma_pow_strictly_increases(2, 233, 256);
    vstd::arithmetic::power2::lemma2_to64();
    vstd::arithmetic::power2::lemma_pow2(256);
    vstd::arithmetic::power2::lemma_pow2_adds(64, 64);
    vstd::arithmetic::power2::lemma_pow2_adds(128, 64);
    vstd::arithmetic::power2::lemma_pow2_adds(192, 64);
    assert(vstd::arithmetic::power2::pow2(256)
        == 0x10000000000000000000000000000000000000000000000000000000000000000);
}

/// The value held in four little-endian 64-bit limbs.
spec fn wide(x0: u64, x1: u64, x2: u64, x3: u64) -> int {
    x0 + x1 * 0x10000000000000000 + x2 * 0x100000000000000000000000000000000
        + x3 * 0x1000000000000000000000000000000000000000000000000
}

/// Multiplies the four-limb value by six, exactly.
fn wide_mul6(x0: u64, x1: u64, x2: u64, x3: u64) -> (r: (u64, u64, u64, u64))
    requires
        6 * wide(x0, x1, x2, x3)
            < 0x10000000000000000000000000000000000000000000000000000000000000000,
    ensures
        wide(r.0, r.1, r.2, r.3) == 6 * wide(x0, x1, x2, x3),
{
    let b: u128 = 0x10000000000000000;
    let t0: u128 = (x0 as u128) * 6;
    let t1: u128 = (x1 as u128) * 6 + t0 / b;
    let t2: u128 = (x2 as u128) * 6 + t1 / b;
    let t3: u128 = (x3 as u128) * 6 + t2 / b;
    proof {
        lemma_fundamental_div_mod(t0 as int, b as int);
        lemma_fundamental_div_mod(t1 as int, b as int);
        lemma_fundamental_div_mod(t2 as int, b as int);
        lemma_mod_division_less_than_divisor(t0 as int, b as int);
        lemma_mod_division_less_than_divisor(t1 as int, b as int);
        lemma_mod_division_less_than_divisor(t2 as int, b as int);
        assert(6 * wide(x0, x1, x2, x3)
            == (t0 % b) + (t1 % b) * 0x10000000000000000
                + (t2 % b) * 0x100000000000000000000000000000000
                + t3 * 0x1000000000000000000000000000000000000000000000000);
        assert(t3 < b);
    }
    let y0: u64 = (t0 % b) as u64;
    let y1: u64 = (t1 % b) as u64;
    let y2: u64 = (t2 % b) as u64;
    let y3: u64 = t3 as u64;
    (y0, y1, y2, y3)
}

/// Divides the four-limb value by five, flooring, by long division from the
/// top limb down.
fn wide_div5(x0: u64, x1: u64, x2: u64, x3: u64) -> (r: (u64, u64, u64, u64))
    ensures
        wide(r.0, r.1, r.2, r.3) == wide(x0, x1, x2, x3) / 5,
{
    let b: u128 = 0x10000000000000000;
    let cur3: u128 = x3 as u128;
    let q3: u128 = cur3 / 5;
    let r3: u128 = cur3 % 5;
    let cur2: u128 = r3 * b + (x2 as u128);
    let q2: u128 = cur2 / 5;
    let r2: u128 = cur2 % 5;
    let cur1: u128 = r2 * b + (x1 as u128);
    let q1: u128 = cur1 / 5;
    let r1: u128 = cur1 % 5;
    let cur0: u128 = r1 * b + (x0 as u128);
    let q0: u128 = cur0 / 5;
    let r0: u128 = cur0 % 5;
    proof {
        lemma_fundamental_div_mod(cur3 as int, 5);
        lemma_fundamental_div_mod(cur2 as int, 5);
        lemma_fundamental_div_mod(cur1 as int, 5);
        lemma_fundamental_div_mod(cur0 as int, 5);
        lemma_mod_division_less_than_divisor(cur3 as int, 5);
        lemma_mod_division_less_than_divisor(cur2 as int, 5);
        lemma_mod_division_less_than_divisor(cur1 as int, 5);
        lemma_mod_division_less_than_divisor(cur0 as int, 5);
        assert(wide(x0, x1, x2, x3)
            == 5 * (q3 * 0x1000000000000000000000000000000000000000000000000
                + q2 * 0x100000000000000000000000000000000 + q1 * 0x10000000000000000 + q0)
                + r0);
        assert(q3 < b && q2 < b && q1 < b && q0 < b);
        lemma_fundamental_div_mod_converse(
            wide(x0, x1, x2, x3),
            5,
            q3 * 0x1000000000000000000000000000000000000000000000000
                + q2 * 0x100000000000000000000000000000000 + q1 * 0x10000000000000000 + q0,
            r0 as int,
        );
    }
    (q0 as u64, q1 as u64, q2 as u64, q3 as u64)
}

/// The exact cost of the next purchase on an axis sitting at `level`, or
/// `None` when that cost exceeds what a 32-bit coin balance could ever pay.
pub fn cost_for_level(level: u32) -> (r: Option<u32>)
    ensures
        match r {
            Some(c) => c == upgrade_cost(level as nat) && upgrade_cost(level as nat) <= u32::MAX,
            None => upgrade_cost(level as nat) > u32::MAX,
        },
{
    if level >= 84 {
        proof {
            lemma_cost_outgrows_u32(level as nat);
        }
        return None;
    }
    let mut x0: u64 = 3000;
    let mut x1: u64 = 0;
    let mut x2: u64 = 0;
    let mut x3: u64 = 0;
    proof {
        vstd::arithmetic::power::lemma_pow0(6);
    }
    let mut i: u32 = 0;
    while i < level
        invariant
            i <= level < 84,
            wide(x0, x1, x2, x3) == 3000 * pow(6, i as nat),
        decreases level - i,
    {
        proof {
            reveal(pow);
            lemma_numerator_fits((i + 1) as nat);
            assert(pow(6, (i + 1) as nat) == 6 * pow(6, i as nat));
            assert(3000 * (6 * pow(6, i as nat)) == 6 * (3000 * pow(6, i as nat)))
                by (nonlinear_arith);
        }
        let (y0, y1, y2, y3) = wide_mul6(x0, x1, x2, x3);
        x0 = y0;
        x1 = y1;
        x2 = y2;
        x3 = y3;
        i = i + 1;
    }
    let ghost numerator = 3000 * pow(6, level as nat);
    proof {
        vstd::arithmetic::power::lemma_pow0(5);
        vstd::arithmetic::div_mod::lemma_div_basics(numerator);
        lemma_pow_positive(6, level as nat);
        assert(numerator >= 0) by (nonlinear_arith)
            requires
                numerator == 3000 * pow(6, level as nat),
                pow(6, level as nat) > 0,
        ;
    }
    let mut j: u32 = 0;
    while j < level
        invariant
            j <= level,
            numerator == 3000 * pow(6, level as nat),
            numerator >= 0,
            wide(x0, x1, x2, x3) == numerator / pow(5, j as nat),
        decreases level - j,
    {
        proof {
            reveal(pow);
            lemma_pow_positive(5, j as nat);
            lemma_div_denominator(numerator, pow(5, j as nat), 5);
            assert(pow(5, (j + 1) as nat) == 5 * pow(5, j as nat));
        }
        let (y0, y1, y2, y3) = wide_div5(x0, x1, x2, x3);
        x0 = y0;
        x1 = y1;
        x2 = y2;
        x3 = y3;
        j = j + 1;
    }
    if x3 == 0 && x2 == 0 && x1 == 0 && x0 <= 0xffffffff {
        Some(x0 as u32)
    } else {
        None
    }
}

} // verus!
