//! Integer fixed-point money. Every amount is an `i64` count of the smallest
//! currency subunit, and every operation saturates at the bounds of `i64`.

use vstd::prelude::*;
use crate::types::Side;

verus! {

/// Basis points in one whole: 10000 bps = 100%.
pub const BPS_SCALE: i64 = 10_000;

/// The `i64` nearest to `x`.
pub open spec fn sat(x: int) -> i64 {
    if x > i64::MAX {
        i64::MAX
    } else if x < i64::MIN {
        i64::MIN
    } else {
        x as i64
    }
}

/// Quotient of `a` by a positive `b`, rounded toward zero.
pub open spec fn div_trunc(a: int, b: int) -> int {
    if a >= 0 {
        a / b
    } else {
        -((-a) / b)
    }
}

/// `amount * bps / 10000`: the product saturates, the quotient rounds toward zero.
pub open spec fn bps_of(amount: i64, bps: i64) -> i64 {
    div_trunc(sat(amount * bps) as int, BPS_SCALE as int) as i64
}

/// The `i64` nearest to `x`.
pub fn clamp(x: i128) -> (r: i64)
    ensures
        r == sat(x as int),
{
    if x > i64::MAX as i128 {
        i64::MAX
    } else if x < i64::MIN as i128 {
        i64::MIN
    } else {
        x as i64
    }
}

/// `a + b`, saturating.
pub fn sat_add(a: i64, b: i64) -> (r: i64)
    ensures
        r == sat(a + b),
{
    match a.checked_add(b) {
        Some(s) => s,
        None => if b > 0 { i64::MAX } else { i64::MIN },
    }
}

/// `a - b`, saturating.
pub fn sat_sub(a: i64, b: i64) -> (r: i64)
    ensures
        r == sat(a - b),
{
    match a.checked_sub(b) {
        Some(s) => s,
        None => if b < 0 { i64::MAX } else { i64::MIN },
    }
}

/// `a * b`, saturating.
pub fn sat_mul(a: i64, b: i64) -> (r: i64)
    ensures
        r == sat(a * b),
{
    match a.checked_mul(b) {
        Some(p) => p,
        None => {
            assert((a < 0) == (b < 0) ==> a * b >= 0) by (nonlinear_arith);
            assert((a < 0) != (b < 0) ==> a * b <= 0) by (nonlinear_arith);
            if (a < 0) == (b < 0) { i64::MAX } else { i64::MIN }
        },
    }
}

/// `|a|`, saturating: the magnitude of `i64::MIN` is `i64::MAX`.
pub fn sat_abs(a: i64) -> (r: i64)
    ensures
        r == sat(if a >= 0 { a as int } else { -a }),
{
    if a >= 0 {
        a
    } else if a == i64::MIN {
        i64::MAX
    } else {
        -a
    }
}

/// `|q|` as an amount: the magnitude of `i64::MIN` is `i64::MAX`.
pub open spec fn magnitude(q: i64) -> i64 {
    sat(if q >= 0 { q as int } else { -q })
}

/// The price an order executes at: the bar's open moved against the trader by
/// `slippage_bps` basis points of itself, up for a buy and down for a sell.
pub open spec fn slipped(price: i64, slippage_bps: i64, side: Side) -> i64 {
    match side {
        Side::Buy => sat(price + bps_of(price, slippage_bps)),
        Side::Sell => sat(price - bps_of(price, slippage_bps)),
    }
}

/// Executed price times the magnitude of the quantity.
pub open spec fn notional_of(price: i64, quantity: i64) -> i64 {
    sat(price * magnitude(quantity))
}

/// `amount * bps / 10000`, the product saturating and the quotient rounded
/// toward zero.
pub fn basis_points(amount: i64, bps: i64) -> (r: i64)
    ensures
        r == bps_of(amount, bps),
{
    sat_mul(amount, bps) / BPS_SCALE
}

/// The fee charged on `notional` at `fee_bps` basis points.
pub fn fee_for(notional: i64, fee_bps: i64) -> (fee: i64)
    ensures
        fee == bps_of(notional, fee_bps),
{
    basis_points(notional, fee_bps)
}

/// The executed price of an order on a bar that opens at `price`.
pub fn apply_slippage(price: i64, slippage_bps: i64, side: Side) -> (executed: i64)
    ensures
        executed == slipped(price, slippage_bps, side),
        slippage_bps == 0 ==> executed == price,
{
    if slippage_bps == 0 {
        assert(price * 0 == 0);
        return price;
    }
    let bump = basis_points(price, slippage_bps);
    match side {
        Side::Buy => sat_add(price, bump),
        Side::Sell => sat_sub(price, bump),
    }
}

/// The notional of an execution of `quantity` units at `price`.
pub fn notional(price: i64, quantity: i64) -> (n: i64)
    ensures
        n == notional_of(price, quantity),
{
    sat_mul(price, sat_abs(quantity))
}

} // verus!
