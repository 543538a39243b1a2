//! Conservative fixed-point money arithmetic of the risk engine.

use vstd::prelude::*;
use super::types::Error;

verus! {

/// Micro-units per whole unit of price.
pub const MICROS_PER_UNIT: i128 = 1_000_000;
/// Basis-point denominator.
pub const BPS_DENOMINATOR: i128 = 10_000;

/// Whether `x` fits in an `i128`.
pub open spec fn fits(x: int) -> bool {
    i128::MIN <= x <= i128::MAX
}

/// Division rounding toward zero, as Rust's `/` on integers does.
pub open spec fn trunc_div(a: int, b: int) -> int {
    if a >= 0 {
        a / b
    } else {
        -((-a) / b)
    }
}

/// `value / divisor` rounded up for non-negative values, `None` on overflow.
pub open spec fn div_ceil_spec(value: int, divisor: int) -> Option<int> {
    if fits(value + divisor - 1) {
        Some(trunc_div(value + divisor - 1, divisor))
    } else {
        None
    }
}

/// The cash a buy of `quantity` at `price` costs, rounded up.
pub open spec fn buy_cost_spec(price: int, quantity: int) -> Option<int> {
    if fits(price * quantity) {
        div_ceil_spec(price * quantity, MICROS_PER_UNIT as int)
    } else {
        None
    }
}

/// The cash a sale of `quantity` at `price` brings, rounded toward zero.
pub open spec fn sale_proceeds_spec(price: int, quantity: int) -> Option<int> {
    if fits(price * quantity) {
        Some(trunc_div(price * quantity, MICROS_PER_UNIT as int))
    } else {
        None
    }
}

/// The share of `fee` charged for `filled` of `total`, rounded up.
pub open spec fn partial_fee_spec(fee: int, filled: int, total: int) -> Option<int> {
    if fits(fee * filled) {
        div_ceil_spec(fee * filled, total)
    } else {
        None
    }
}

/// `value * bps / 10_000`, rounded toward zero.
pub open spec fn haircut_spec(value: int, bps: int) -> Option<int> {
    if fits(value * bps) {
        Some(trunc_div(value * bps, BPS_DENOMINATOR as int))
    } else {
        None
    }
}

/// Checked addition in `i128`.
pub open spec fn add_spec(a: int, b: int) -> Option<int> {
    if fits(a + b) {
        Some(a + b)
    } else {
        None
    }
}

/// Checked subtraction in `i128`.
pub open spec fn sub_spec(a: int, b: int) -> Option<int> {
    if fits(a - b) {
        Some(a - b)
    } else {
        None
    }
}

/// The view of an arithmetic result: overflow is `None`.
pub open spec fn res_view(r: Result<i128, Error>) -> Option<int> {
    match r {
        Ok(v) => Some(v as int),
        Err(_) => None,
    }
}

/// An arithmetic result that is either the exact value or `Overflow`.
pub open spec fn arith_result(r: Result<i128, Error>, expected: Option<int>) -> bool {
    &&& res_view(r) == expected
    &&& (r is Err ==> r == Err::<i128, Error>(Error::Overflow))
}

fn trunc_div_exec(value: i128, divisor: i128) -> (r: i128)
    requires
        divisor > 0,
    ensures
        r == trunc_div(value as int, divisor as int),
{
    value / divisor
}

/// Rounds `value / divisor` up, failing with `Overflow` when `value + divisor - 1` overflows.
pub fn div_ceil(value: i128, divisor: i128) -> (r: Result<i128, Error>)
    requires
        divisor > 0,
    ensures
        arith_result(r, div_ceil_spec(value as int, divisor as int)),
{
    match value.checked_add(divisor - 1) {
        Some(adjusted) => Ok(trunc_div_exec(adjusted, divisor)),
        None => Err(Error::Overflow),
    }
}

/// The cost of buying `quantity` at `price` micro-units, rounded up.
pub fn buy_cost(price: i64, quantity: i128) -> (r: Result<i128, Error>)
    ensures
        arith_result(r, buy_cost_spec(price as int, quantity as int)),
{
    match (price as i128).checked_mul(quantity) {
        Some(product) => div_ceil(product, MICROS_PER_UNIT),
        None => Err(Error::Overflow),
    }
}

/// The proceeds of selling `quantity` at `price` micro-units, rounded toward zero.
pub fn sale_proceeds(price: i64, quantity: i128) -> (r: Result<i128, Error>)
    ensures
        arith_result(r, sale_proceeds_spec(price as int, quantity as int)),
{
    match (price as i128).checked_mul(quantity) {
        Some(product) => Ok(trunc_div_exec(product, MICROS_PER_UNIT)),
        None => Err(Error::Overflow),
    }
}

/// The fee share for `filled` of `total`, rounded up.
pub fn partial_fee(fee: i128, filled: i128, total: i128) -> (r: Result<i128, Error>)
    requires
        total > 0,
    ensures
        arith_result(r, partial_fee_spec(fee as int, filled as int, total as int)),
{
    match fee.checked_mul(filled) {
        Some(product) => div_ceil(product, total),
        None => Err(Error::Overflow),
    }
}

/// `value` scaled by `bps` basis points, rounded toward zero.
pub fn haircut(value: i128, bps: u16) -> (r: Result<i128, Error>)
    ensures
        arith_result(r, haircut_spec(value as int, bps as int)),
{
    match value.checked_mul(bps as i128) {
        Some(product) => Ok(trunc_div_exec(product, BPS_DENOMINATOR)),
        None => Err(Error::Overflow),
    }
}

/// Checked `i128` addition reporting `Overflow`.
pub fn add_checked(a: i128, b: i128) -> (r: Result<i128, Error>)
    ensures
        arith_result(r, add_spec(a as int, b as int)),
{
    match a.checked_add(b) {
        Some(v) => Ok(v),
        None => Err(Error::Overflow),
    }
}

/// Checked `i128` subtraction reporting `Overflow`.
pub fn sub_checked(a: i128, b: i128) -> (r: Result<i128, Error>)
    ensures
        arith_result(r, sub_spec(a as int, b as int)),
{
    match a.checked_sub(b) {
        Some(v) => Ok(v),
        None => Err(Error::Overflow),
    }
}

/// Rounding is conservative: a fee share is never below the exact share and
/// a buy cost is never below the exact cost.
pub proof fn law_rounding_is_conservative(fee: int, filled: int, total: int, price: int, quantity: int)
    requires
        fee >= 0,
        filled >= 0,
        total > 0,
        price >= 0,
        quantity >= 0,
        partial_fee_spec(fee, filled, total) is Some,
        buy_cost_spec(price, quantity) is Some,
    ensures
        partial_fee_spec(fee, filled, total)->0 * total >= fee * filled,
        buy_cost_spec(price, quantity)->0 * MICROS_PER_UNIT >= price * quantity,
{
    assert(fee * filled >= 0) by (nonlinear_arith)
        requires
            fee >= 0,
            filled >= 0,
    ;
    assert(price * quantity >= 0) by (nonlinear_arith)
        requires
            price >= 0,
            quantity >= 0,
    ;
    let a = fee * filled + total - 1;
    assert((a / total) * total >= fee * filled) by (nonlinear_arith)
        requires
            a == fee * filled + total - 1,
            total > 0,
            fee * filled >= 0,
    ;
    let b = price * quantity + 1_000_000 - 1;
    assert((b / 1_000_000) * 1_000_000 >= price * quantity) by (nonlinear_arith)
        requires
            b == price * quantity + 999_999,
            price * quantity >= 0,
    ;
}

} // verus!
