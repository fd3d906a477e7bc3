//! One symbol's holding: a signed quantity and the weighted average cost of
//! the long part of it.

use vstd::prelude::*;
use vstd::arithmetic::div_mod::lemma_div_multiples_vanish;
use crate::money::{clamp, div_trunc, sat, sat_add, sat_mul, sat_sub};

verus! {

/// Quantity held (negative when short) and the average cost per unit, which
/// has a meaning only while the quantity is positive.
#[derive(Clone, Copy, PartialEq, Eq, Structural, Debug)]
pub struct Position {
    pub quantity: i64,
    pub average_cost: i64,
}

/// The long part of a quantity.
pub open spec fn long_part(quantity: i64) -> i64 {
    if quantity > 0 {
        quantity
    } else {
        0
    }
}

impl Position {
    /// Nothing held.
    pub open spec fn flat() -> Position {
        Position { quantity: 0, average_cost: 0 }
    }

    /// The average cost is zero unless the position is long.
    pub open spec fn tidy(self) -> bool {
        self.quantity <= 0 ==> self.average_cost == 0
    }

    /// The position after buying `quantity` units at `price`: the new average
    /// cost is the notional-weighted mean of the old cost over the old long
    /// quantity and `price` over `quantity`, rounded toward zero.
    pub open spec fn bought(self, price: i64, quantity: i64) -> Position {
        let q = sat(self.quantity + quantity);
        Position {
            quantity: q,
            average_cost: if q > 0 {
                sat(
                    div_trunc(
                        sat(self.average_cost * long_part(self.quantity)) + sat(price * quantity),
                        q as int,
                    ),
                )
            } else {
                0
            },
        }
    }

    /// The position after selling `quantity` units.
    pub open spec fn sold(self, quantity: i64) -> Position {
        let q = sat(self.quantity - quantity);
        Position { quantity: q, average_cost: if q <= 0 { 0 } else { self.average_cost } }
    }

    /// Profit realized by selling `quantity` units at `price` against the
    /// average cost.
    pub open spec fn gain_on_sale(self, price: i64, quantity: i64) -> i64 {
        sat(sat(price - self.average_cost) * quantity)
    }

    /// The position after a run of buys, each a `(price, quantity)` pair.
    pub open spec fn after_buys(self, buys: Seq<(i64, i64)>) -> Position
        decreases buys.len(),
    {
        if buys.len() == 0 {
            self
        } else {
            self.after_buys(buys.drop_last()).bought(buys.last().0, buys.last().1)
        }
    }

    /// A flat position.
    pub fn new() -> (p: Position)
        ensures
            p == Position::flat(),
    {
        Position { quantity: 0, average_cost: 0 }
    }

    /// The position after buying `quantity` units at `price`.
    pub fn buy(&self, price: i64, quantity: i64) -> (p: Position)
        ensures
            p == self.bought(price, quantity),
    {
        let q = sat_add(self.quantity, quantity);
        let average_cost = if q > 0 {
            let held: i64 = if self.quantity > 0 { self.quantity } else { 0 };
            let old_notional: i128 = sat_mul(self.average_cost, held) as i128;
            let add_notional: i128 = sat_mul(price, quantity) as i128;
            clamp((old_notional + add_notional) / (q as i128))
        } else {
            0
        };
        Position { quantity: q, average_cost }
    }

    /// The position after selling `quantity` units, whatever was held.
    pub fn sell(&self, quantity: i64) -> (p: Position)
        ensures
            p == self.sold(quantity),
    {
        let q = sat_sub(self.quantity, quantity);
        Position { quantity: q, average_cost: if q <= 0 { 0 } else { self.average_cost } }
    }

    /// The gain realized by selling `quantity` units at `price`.
    pub fn realized_on_sale(&self, price: i64, quantity: i64) -> (gain: i64)
        ensures
            gain == self.gain_on_sale(price, quantity),
    {
        sat_mul(sat_sub(price, self.average_cost), quantity)
    }
}

/// Buying and selling keep the average cost at zero while nothing is held long.
pub proof fn lemma_trades_keep_tidy(p: Position, price: i64, quantity: i64)
    requires
        p.tidy(),
    ensures
        p.bought(price, quantity).tidy(),
        p.sold(quantity).tidy(),
{
}

/// A position built from nothing by one buy of `quantity` at `buy_price` has
/// that price as its average cost; sold whole at `sell_price` it realizes
/// `(sell_price - buy_price) * quantity` and is flat again. Fees are no part
/// of the realized profit. Holds wherever none of the three products and
/// differences leaves the range of `i64`.
pub proof fn lemma_round_trip(buy_price: i64, quantity: i64, sell_price: i64)
    requires
        quantity > 0,
        i64::MIN <= buy_price * quantity <= i64::MAX,
        i64::MIN <= sell_price - buy_price <= i64::MAX,
        i64::MIN <= (sell_price - buy_price) * quantity <= i64::MAX,
    ensures
        Position::flat().bought(buy_price, quantity) == (Position {
            quantity,
            average_cost: buy_price,
        }),
        Position::flat().bought(buy_price, quantity).gain_on_sale(sell_price, quantity) == (
        sell_price - buy_price) * quantity,
        Position::flat().bought(buy_price, quantity).sold(quantity) == Position::flat(),
{
    lemma_div_trunc_of_multiple(buy_price as int, quantity as int);
    assert(0 * 0 == 0);
}

/// Units bought over a run of buys.
pub open spec fn total_quantity(buys: Seq<(i64, i64)>) -> int
    decreases buys.len(),
{
    if buys.len() == 0 {
        0
    } else {
        total_quantity(buys.drop_last()) + buys.last().1
    }
}

/// Money paid over a run of buys, fees apart.
pub open spec fn total_notional(buys: Seq<(i64, i64)>) -> int
    decreases buys.len(),
{
    if buys.len() == 0 {
        0
    } else {
        total_notional(buys.drop_last()) + buys.last().0 * buys.last().1
    }
}

/// A position built from nothing by a run of buys, each of a positive quantity
/// at a price between `lo` and `hi`, holds the total quantity at an average
/// cost that lies between `lo` and `hi` and never overstates what was paid:
/// average cost times quantity is at most the total notional. With `lo == hi`
/// the average cost is that price exactly. Holds wherever `hi` times the total
/// quantity fits in `i64`, so that nothing saturates.
pub proof fn lemma_average_of_buys(buys: Seq<(i64, i64)>, lo: i64, hi: i64)
    requires
        0 <= lo,
        forall|i: int| 0 <= i < buys.len() ==> (#[trigger] buys[i]).1 > 0 && lo <= buys[i].0 <= hi,
        total_quantity(buys) <= i64::MAX,
        hi * total_quantity(buys) <= i64::MAX,
    ensures
        Position::flat().after_buys(buys).quantity == total_quantity(buys),
        buys.len() > 0 ==> lo <= Position::flat().after_buys(buys).average_cost <= hi,
        buys.len() > 0 ==> total_quantity(buys) > 0,
        Position::flat().after_buys(buys).average_cost * total_quantity(buys) <= total_notional(
            buys,
        ),
        total_notional(buys) <= hi * total_quantity(buys),
    decreases buys.len(),
{
    if buys.len() == 0 {
        assert(0 * 0 == 0);
        assert(hi * 0 == 0);
    } else {
        let init = buys.drop_last();
        let price = buys.last().0;
        let qty = buys.last().1;
        assert forall|i: int| 0 <= i < init.len() implies (#[trigger] init[i]).1 > 0 && lo
            <= init[i].0 <= hi by {
            assert(init[i] == buys[i]);
        }
        lemma_quantity_nonnegative(init);
        let q0 = total_quantity(init);
        assert(hi * q0 <= hi * (q0 + qty)) by (nonlinear_arith)
            requires
                hi >= 0,
                qty > 0,
        ;
        lemma_average_of_buys(init, lo, hi);
        let p0 = Position::flat().after_buys(init);
        let a0 = p0.average_cost;
        let q = q0 + qty;
        assert(init.len() == 0 ==> a0 == 0 && q0 == 0);
        lemma_mean_bounds(a0 as int, q0, price as int, qty as int, lo as int, hi as int);
        let n = a0 * q0 + price * qty;
        assert(sat(a0 * long_part(p0.quantity)) == a0 * q0);
        assert(sat(price * qty) == price * qty);
        lemma_quotient_bounds(n, q, lo as int, hi as int);
        assert(div_trunc(n, q) == n / q);
        assert(total_notional(init) + price * qty <= hi * q) by (nonlinear_arith)
            requires
                total_notional(init) <= hi * q0,
                price <= hi,
                qty > 0,
                q == q0 + qty,
        ;
    }
}

proof fn lemma_quantity_nonnegative(buys: Seq<(i64, i64)>)
    requires
        forall|i: int| 0 <= i < buys.len() ==> (#[trigger] buys[i]).1 > 0,
    ensures
        total_quantity(buys) >= 0,
        buys.len() > 0 ==> total_quantity(buys) > 0,
    decreases buys.len(),
{
    if buys.len() > 0 {
        assert forall|i: int| 0 <= i < buys.drop_last().len() implies (
        #[trigger] buys.drop_last()[i]).1 > 0 by {
            assert(buys.drop_last()[i] == buys[i]);
        }
        lemma_quantity_nonnegative(buys.drop_last());
    }
}

proof fn lemma_mean_bounds(a0: int, q0: int, price: int, qty: int, lo: int, hi: int)
    by (nonlinear_arith)
    requires
        0 <= lo,
        q0 >= 0,
        qty > 0,
        q0 == 0 ==> a0 == 0,
        q0 > 0 ==> lo <= a0 <= hi,
        lo <= price <= hi,
        hi * (q0 + qty) <= i64::MAX,
    ensures
        lo * (q0 + qty) <= a0 * q0 + price * qty <= hi * (q0 + qty),
        0 <= a0 * q0 <= i64::MAX,
        0 <= price * qty <= i64::MAX,
{
}

proof fn lemma_quotient_bounds(n: int, q: int, lo: int, hi: int)
    by (nonlinear_arith)
    requires
        q > 0,
        lo * q <= n <= hi * q,
    ensures
        lo <= n / q <= hi,
        (n / q) * q <= n,
{
}

/// `p * q` divided by a positive `q` is `p`, whatever the sign of `p`.
pub proof fn lemma_div_trunc_of_multiple(p: int, q: int)
    requires
        q > 0,
    ensures
        div_trunc(p * q, q) == p,
{
    if p >= 0 {
        assert(p * q >= 0) by (nonlinear_arith)
            requires
                p >= 0,
                q > 0,
        ;
        lemma_div_multiples_vanish(p, q);
        assert(q * p == p * q) by (nonlinear_arith);
    } else {
        assert(p * q < 0) by (nonlinear_arith)
            requires
                p < 0,
                q > 0,
        ;
        assert(-(p * q) == q * (-p)) by (nonlinear_arith);
        lemma_div_multiples_vanish(-p, q);
    }
}

} // verus!
