//! The effect of one period's returns on a portfolio.

use vstd::prelude::*;
use crate::config::RATE_SCALE;

verus! {

/// The blended return of one period, in parts per million of parts per
/// million: each asset's return weighted by its share.
pub open spec fn blended_return(stock_return: int, bond_return: int, stock_weight: int, bond_weight: int) -> int {
    stock_return * stock_weight + bond_return * bond_weight
}

/// The divisor that brings a value times a blended return back to minor units.
pub open spec fn blend_scale() -> int {
    RATE_SCALE as int * RATE_SCALE as int
}

/// The portfolio value after one period's returns: the value, plus the value
/// times the blended return, rounded down to a whole minor unit.
pub open spec fn advance(
    current_value: int,
    stock_return: int,
    bond_return: int,
    stock_weight: int,
    bond_weight: int,
) -> int {
    current_value + (current_value * blended_return(stock_return, bond_return, stock_weight, bond_weight))
        / blend_scale()
}

/// True of the values that an `i64` holds.
pub open spec fn in_value_range(v: int) -> bool {
    i64::MIN <= v <= i64::MAX
}

proof fn lemma_floor_of_negative(m: int, d: int)
    requires
        m > 0,
        d > 0,
    ensures
        (-m) / d == -((m + d - 1) / d),
{
    let q = (m + d - 1) / d;
    let r = (m + d - 1) % d;
    assert(m + d - 1 == d * q + r && 0 <= r < d) by {
        vstd::arithmetic::div_mod::lemma_fundamental_div_mod(m + d - 1, d);
        vstd::arithmetic::div_mod::lemma_mod_bound(m + d - 1, d);
    }
    // -m == d * (-q) + (d - 1 - r), with 0 <= d - 1 - r < d
    assert(-m == d * (-q) + (d - 1 - r)) by (nonlinear_arith)
        requires
            m + d - 1 == d * q + r,
    ;
    vstd::arithmetic::div_mod::lemma_fundamental_div_mod_converse(-m, d, -q, d - 1 - r);
}

/// `advance` in a type wide enough for every result.
pub(crate) fn advance_wide(
    stock_performance: i32,
    bond_performance: i32,
    current_value: i64,
    stock_weight: u32,
    bond_weight: u32,
) -> (next: i128)
    requires
        stock_weight + bond_weight == RATE_SCALE,
    ensures
        next == advance(
            current_value as int,
            stock_performance as int,
            bond_performance as int,
            stock_weight as int,
            bond_weight as int,
        ),
        -0x1_0000_0000_0000_0000_0000 <= next <= 0x1_0000_0000_0000_0000_0000,
{
    let sp: i128 = stock_performance as i128;
    let bp: i128 = bond_performance as i128;
    let sw: i128 = stock_weight as i128;
    let bw: i128 = bond_weight as i128;
    let cv: i128 = current_value as i128;
    assert(-0x8000_0000 * 1_000_000 <= sp * sw <= 0x8000_0000 * 1_000_000) by (nonlinear_arith)
        requires
            -0x8000_0000 <= sp <= 0x8000_0000,
            0 <= sw <= 1_000_000,
    ;
    assert(-0x8000_0000 * 1_000_000 <= bp * bw <= 0x8000_0000 * 1_000_000) by (nonlinear_arith)
        requires
            -0x8000_0000 <= bp <= 0x8000_0000,
            0 <= bw <= 1_000_000,
    ;
    let blended: i128 = sp * sw + bp * bw;
    assert(-0x8000_0000_0000_0000 * 0x10_0000_0000_0000 <= cv * blended <= 0x8000_0000_0000_0000
        * 0x10_0000_0000_0000) by (nonlinear_arith)
        requires
            -0x8000_0000_0000_0000 <= cv <= 0x8000_0000_0000_0000,
            -0x10_0000_0000_0000 <= blended <= 0x10_0000_0000_0000,
    ;
    let product: i128 = cv * blended;
    let scale: i128 = 1_000_000_000_000;
    let gain: i128 = if product >= 0 {
        product / scale
    } else {
        proof {
            lemma_floor_of_negative(-product, scale as int);
        }
        -((-product + (scale - 1)) / scale)
    };
    assert(-0x8000_0000_0000_0000_0000 <= gain <= 0x8000_0000_0000_0000_0000) by {
        vstd::arithmetic::div_mod::lemma_fundamental_div_mod(product as int, scale as int);
        vstd::arithmetic::div_mod::lemma_mod_bound(product as int, scale as int);
        assert(-0x8000_0000_0000_0000_0000 <= (product as int / scale as int) <= 0x8000_0000_0000_0000_0000)
            by (nonlinear_arith)
            requires
                -0x8_0000_0000_0000_0000_0000_0000_0000 <= product <= 0x8_0000_0000_0000_0000_0000_0000_0000,
                scale == 1_000_000_000_000,
                product == scale * (product as int / scale as int) + (product as int % scale as int),
                0 <= (product as int % scale as int) < scale,
        ;
    }
    cv + gain
}

/// Applies one period's returns to a portfolio of `current_value`: the
/// value grows, or shrinks, by the blended return of the two assets. No cash
/// flow is applied and nothing is clamped. Returns `None` exactly when the
/// new value does not fit in an `i64`.
pub fn calculate_year_performance(
    stock_performance: i32,
    bond_performance: i32,
    current_value: i64,
    stock_weight: u32,
    bond_weight: u32,
) -> (next: Option<i64>)
    requires
        stock_weight + bond_weight == RATE_SCALE,
    ensures
        in_value_range(
            advance(
                current_value as int,
                stock_performance as int,
                bond_performance as int,
                stock_weight as int,
                bond_weight as int,
            ),
        ) ==> next == Some(
            advance(
                current_value as int,
                stock_performance as int,
                bond_performance as int,
                stock_weight as int,
                bond_weight as int,
            ) as i64,
        ),
        !in_value_range(
            advance(
                current_value as int,
                stock_performance as int,
                bond_performance as int,
                stock_weight as int,
                bond_weight as int,
            ),
        ) ==> next is None,
{
    let wide: i128 = advance_wide(stock_performance, bond_performance, current_value, stock_weight, bond_weight);
    if wide < i64::MIN as i128 || wide > i64::MAX as i128 {
        None
    } else {
        Some(wide as i64)
    }
}

} // verus!
