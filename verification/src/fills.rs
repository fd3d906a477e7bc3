//! The terms on which a market order executes against a bar.

use vstd::prelude::*;
use crate::money::{apply_slippage, bps_of, fee_for, notional, notional_of, slipped};
use crate::types::{Fill, FillView, OrderView, PendingOrder};

verus! {

/// The fill of `order` on a bar that opens at `open`: the executed price is
/// the open after slippage, the fee is `fee_bps` basis points of the notional.
pub open spec fn fill_of(
    order: OrderView,
    open: i64,
    date: Seq<char>,
    fee_bps: i64,
    slippage_bps: i64,
) -> FillView {
    let price = slipped(open, slippage_bps, order.side);
    FillView {
        date,
        symbol: order.symbol,
        side: order.side,
        quantity: order.quantity,
        price,
        fee: bps_of(notional_of(price, order.quantity), fee_bps),
        order_id: order.order_id,
    }
}

/// The fill of `order` on `date` against a bar that opens at `open`.
pub fn fill_order(
    order: &PendingOrder,
    open: i64,
    date: &String,
    fee_bps: i64,
    slippage_bps: i64,
) -> (fill: Fill)
    ensures
        fill@ == fill_of(order@, open, date@, fee_bps, slippage_bps),
{
    let price = apply_slippage(open, slippage_bps, order.side);
    let fee = fee_for(notional(price, order.quantity), fee_bps);
    Fill {
        date: date.clone(),
        symbol: order.symbol.clone(),
        side: order.side,
        quantity: order.quantity,
        price,
        fee,
        order_id: order.order_id,
    }
}

} // verus!
