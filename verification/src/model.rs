//! The engine as a mathematical value, and each operation as a function from
//! one such value to the next.

use vstd::prelude::*;
use crate::account::{lemma_executed_inv, lemma_fresh_account_inv, AccountView};
use crate::fills::fill_of;
use crate::market::has_bar;
use crate::money::sat;
use crate::types::{BarView, FillView, OrderView, PointView, Side};

verus! {

/// What an `Engine` stands for.
pub struct EngineView {
    pub starting_cash: i64,
    pub fee_bps: i64,
    pub slippage_bps: i64,
    /// Latest bar of each symbol.
    pub bars: Map<Seq<char>, BarView>,
    /// Orders waiting for a bar, oldest first.
    pub pending: Seq<OrderView>,
    pub next_order_id: i64,
    pub account: AccountView,
    pub equity_curve: Seq<PointView>,
    pub peak_equity: i64,
    pub max_drawdown: i64,
}

/// The highest equity seen: the starting cash or a later mark.
pub open spec fn peak_of(starting_cash: i64, curve: Seq<PointView>) -> i64
    decreases curve.len(),
{
    if curve.len() == 0 {
        starting_cash
    } else {
        let before = peak_of(starting_cash, curve.drop_last());
        if curve.last().equity > before {
            curve.last().equity
        } else {
            before
        }
    }
}

/// The deepest fall of a mark below the peak that stood at that mark.
pub open spec fn drawdown_of(starting_cash: i64, curve: Seq<PointView>) -> i64
    decreases curve.len(),
{
    if curve.len() == 0 {
        0
    } else {
        let before = drawdown_of(starting_cash, curve.drop_last());
        let fall = sat(peak_of(starting_cash, curve) - curve.last().equity);
        if fall > before {
            fall
        } else {
            before
        }
    }
}

/// The steps of the curve from which a return can be taken: each pair of a
/// mark and the mark after it, in order, but for those whose first mark is
/// zero.
pub open spec fn steps_of(curve: Seq<PointView>) -> Seq<(i64, i64)>
    decreases curve.len(),
{
    if curve.len() < 2 {
        Seq::empty()
    } else {
        let earlier = steps_of(curve.drop_last());
        let from = curve[curve.len() - 2].equity;
        if from != 0 {
            earlier.push((from, curve.last().equity))
        } else {
            earlier
        }
    }
}

impl EngineView {
    /// What holds of every engine. The account stands as every account does.
    /// Order ids start at one and rise by one per order placed; each id
    /// issued so far belongs to exactly one order, which is either queued or
    /// filled; the queue is in rising order of id. Each cached bar is filed
    /// under its own symbol. The peak is the highest of the starting cash and
    /// the marks so far, and the drawdown the deepest fall of a mark below the
    /// peak that stood at it.
    pub open spec fn inv(self) -> bool {
        let fills = self.account.fills;
        &&& self.account.inv()
        &&& 1 <= self.next_order_id
        &&& fills.len() + self.pending.len() + 1 == self.next_order_id
        &&& forall|i: int, j: int|
            0 <= i < j < self.pending.len() ==> (#[trigger] self.pending[i]).order_id < (
            #[trigger] self.pending[j]).order_id
        &&& forall|i: int|
            0 <= i < self.pending.len() ==> 1 <= (#[trigger] self.pending[i]).order_id
                < self.next_order_id
        &&& forall|i: int|
            0 <= i < fills.len() ==> 1 <= (#[trigger] fills[i]).order_id < self.next_order_id
        &&& forall|i: int, j: int|
            0 <= i < j < fills.len() ==> (#[trigger] fills[i]).order_id != (
            #[trigger] fills[j]).order_id
        &&& forall|i: int, j: int|
            0 <= i < self.pending.len() && 0 <= j < fills.len() ==> (
            #[trigger] self.pending[i]).order_id != (#[trigger] fills[j]).order_id
        &&& forall|symbol: Seq<char>| #[trigger]
            self.bars.contains_key(symbol) ==> self.bars[symbol].symbol == symbol
        &&& self.peak_equity == peak_of(self.starting_cash, self.equity_curve)
        &&& self.max_drawdown == drawdown_of(self.starting_cash, self.equity_curve)
    }

    /// A fresh engine: all cash, no bars, no orders, no positions.
    pub open spec fn start(starting_cash: i64, fee_bps: i64, slippage_bps: i64) -> EngineView {
        EngineView {
            starting_cash,
            fee_bps,
            slippage_bps,
            bars: Map::empty(),
            pending: Seq::empty(),
            next_order_id: 1,
            account: AccountView::start(starting_cash),
            equity_curve: Seq::empty(),
            peak_equity: starting_cash,
            max_drawdown: 0,
        }
    }

    /// The cache holds `bar` for its symbol; nothing else changes.
    pub open spec fn with_bar(self, bar: BarView) -> EngineView {
        EngineView { bars: self.bars.insert(bar.symbol, bar), ..self }
    }

    /// A new order joins the back of the queue under the next id.
    pub open spec fn with_order(self, symbol: Seq<char>, side: Side, quantity: i64) -> EngineView {
        EngineView {
            pending: self.pending.push(
                OrderView { order_id: self.next_order_id, symbol, side, quantity },
            ),
            next_order_id: (self.next_order_id + 1) as i64,
            ..self
        }
    }

    /// An order fills on `date` when the cached bar of its symbol is dated
    /// exactly `date`.
    pub open spec fn fillable(self, order: OrderView, date: Seq<char>) -> bool {
        has_bar(self.bars, order.symbol, date)
    }

    /// The terms on which `order` executes against the cached bar of its symbol.
    pub open spec fn fill_for(self, order: OrderView, date: Seq<char>) -> FillView {
        fill_of(order, self.bars[order.symbol].open, date, self.fee_bps, self.slippage_bps)
    }

    /// The engine after `order` has executed at the open of its cached bar.
    pub open spec fn executed(self, order: OrderView, date: Seq<char>) -> EngineView {
        EngineView { account: self.account.executed(self.fill_for(order, date)), ..self }
    }

    /// The engine after `order` was passed over: it joins the back of the queue.
    pub open spec fn deferred(self, order: OrderView) -> EngineView {
        EngineView { pending: self.pending.push(order), ..self }
    }

    /// The engine after each of `orders`, oldest first, has either executed
    /// or been passed over.
    pub open spec fn settled(self, orders: Seq<OrderView>, date: Seq<char>) -> EngineView
        decreases orders.len(),
    {
        if orders.len() == 0 {
            self
        } else {
            let before = self.settled(orders.drop_last(), date);
            if before.fillable(orders.last(), date) {
                before.executed(orders.last(), date)
            } else {
                before.deferred(orders.last())
            }
        }
    }

    /// The engine with an empty queue.
    pub open spec fn drained(self) -> EngineView {
        EngineView { pending: Seq::empty(), ..self }
    }

    /// The engine after the fills of `date`: the whole queue is settled, and
    /// what was passed over is the new queue.
    pub open spec fn after_fills(self, date: Seq<char>) -> EngineView {
        self.drained().settled(self.pending, date)
    }

    /// Equity at the close of `date`.
    pub open spec fn equity_at(self, date: Seq<char>) -> i64 {
        self.account.equity_at(self.bars, date)
    }

    /// The engine after the close of `date`: one more point on the equity
    /// curve, the peak raised to it if it is higher, the drawdown deepened
    /// if it lies further below the peak.
    pub open spec fn after_close(self, date: Seq<char>) -> EngineView {
        let equity = self.equity_at(date);
        let peak = if equity > self.peak_equity {
            equity
        } else {
            self.peak_equity
        };
        let fall = sat(peak - equity);
        EngineView {
            equity_curve: self.equity_curve.push(PointView { date, equity }),
            peak_equity: peak,
            max_drawdown: if fall > self.max_drawdown {
                fall
            } else {
                self.max_drawdown
            },
            ..self
        }
    }
}

/// A fresh engine stands as every engine does.
pub proof fn lemma_start_inv(starting_cash: i64, fee_bps: i64, slippage_bps: i64)
    ensures
        EngineView::start(starting_cash, fee_bps, slippage_bps).inv(),
{
    lemma_fresh_account_inv(starting_cash);
}

/// A new bar leaves the engine as every engine stands.
pub proof fn lemma_with_bar_inv(s: EngineView, bar: BarView)
    requires
        s.inv(),
    ensures
        s.with_bar(bar).inv(),
{
}

/// A new order leaves the engine as every engine stands, and its id is one
/// that no queued or filled order has.
pub proof fn lemma_with_order_inv(s: EngineView, symbol: Seq<char>, side: Side, quantity: i64)
    requires
        s.inv(),
        s.next_order_id < i64::MAX,
    ensures
        s.with_order(symbol, side, quantity).inv(),
        forall|i: int| 0 <= i < s.pending.len() ==> (#[trigger] s.pending[i]).order_id
            != s.next_order_id,
        forall|i: int|
            0 <= i < s.account.fills.len() ==> (#[trigger] s.account.fills[i]).order_id
                != s.next_order_id,
{
}

/// The id that every order settled so far lies below, once the first `k`
/// queued orders are settled.
spec fn id_bound(s0: EngineView, k: int) -> int {
    if k < s0.pending.len() {
        s0.pending[k].order_id as int
    } else {
        s0.next_order_id as int
    }
}

/// What holds of `s` when it is `s0` with its first `k` queued orders settled.
spec fn midway(s0: EngineView, k: int, s: EngineView) -> bool {
    let n0 = s0.account.fills.len();
    let fills = s.account.fills;
    &&& s.account.inv()
    &&& s.starting_cash == s0.starting_cash
    &&& s.fee_bps == s0.fee_bps
    &&& s.slippage_bps == s0.slippage_bps
    &&& s.bars == s0.bars
    &&& s.next_order_id == s0.next_order_id
    &&& s.equity_curve == s0.equity_curve
    &&& s.peak_equity == s0.peak_equity
    &&& s.max_drawdown == s0.max_drawdown
    &&& fills.len() >= n0
    &&& forall|m: int| 0 <= m < n0 ==> (#[trigger] fills[m]).order_id == s0.account.fills[m].order_id
    &&& fills.len() + s.pending.len() == n0 + k
    &&& forall|i: int, j: int|
        0 <= i < j < s.pending.len() ==> (#[trigger] s.pending[i]).order_id < (
        #[trigger] s.pending[j]).order_id
    &&& forall|i: int|
        0 <= i < s.pending.len() ==> 1 <= (#[trigger] s.pending[i]).order_id < id_bound(s0, k)
    &&& forall|i: int| n0 <= i < fills.len() ==> 1 <= (#[trigger] fills[i]).order_id < id_bound(s0, k)
    &&& forall|i: int, j: int|
        0 <= i < j < fills.len() ==> (#[trigger] fills[i]).order_id != (#[trigger] fills[j]).order_id
    &&& forall|i: int, j: int|
        0 <= i < s.pending.len() && 0 <= j < fills.len() ==> (#[trigger] s.pending[i]).order_id != (
        #[trigger] fills[j]).order_id
}

proof fn lemma_midway(s0: EngineView, k: int, date: Seq<char>)
    requires
        s0.inv(),
        0 <= k <= s0.pending.len(),
    ensures
        midway(s0, k, s0.drained().settled(s0.pending.take(k), date)),
    decreases k,
{
    let orders = s0.pending.take(k);
    if k == 0 {
        assert(orders.len() == 0);
    } else {
        lemma_midway(s0, k - 1, date);
        assert(orders.drop_last() =~= s0.pending.take(k - 1));
        let order = s0.pending[k - 1];
        assert(orders.last() == order);
        let before = s0.drained().settled(s0.pending.take(k - 1), date);
        let after = s0.drained().settled(orders, date);
        assert(id_bound(s0, k - 1) == order.order_id);
        assert(order.order_id < id_bound(s0, k)) by {
            if k < s0.pending.len() {
                assert(s0.pending[k - 1].order_id < s0.pending[k].order_id);
            }
        }
        let n0 = s0.account.fills.len();
        assert forall|m: int| 0 <= m < n0 implies (#[trigger] before.account.fills[m]).order_id
            != order.order_id by {
            assert(s0.pending[k - 1].order_id != s0.account.fills[m].order_id);
        }
        if before.fillable(order, date) {
            let fill = before.fill_for(order, date);
            lemma_executed_inv(before.account, fill);
            assert(after.account.fills == before.account.fills.push(fill));
            assert(after.pending == before.pending);
            assert(midway(s0, k, after));
        } else {
            assert(after.pending == before.pending.push(order));
            assert(after.account == before.account);
            assert(midway(s0, k, after));
        }
    }
}

/// The fills of a date leave the engine as every engine stands.
pub proof fn lemma_after_fills_inv(s: EngineView, date: Seq<char>)
    requires
        s.inv(),
    ensures
        s.after_fills(date).inv(),
{
    lemma_midway(s, s.pending.len() as int, date);
    assert(s.pending.take(s.pending.len() as int) =~= s.pending);
    let after = s.after_fills(date);
    let n0 = s.account.fills.len();
    assert forall|i: int| 0 <= i < after.account.fills.len() implies 1 <= (
    #[trigger] after.account.fills[i]).order_id < after.next_order_id by {
        if i < n0 {
            assert(1 <= s.account.fills[i].order_id < s.next_order_id);
        }
    }
}

/// The close of a date leaves the engine as every engine stands.
pub proof fn lemma_after_close_inv(s: EngineView, date: Seq<char>)
    requires
        s.inv(),
    ensures
        s.after_close(date).inv(),
{
    let after = s.after_close(date);
    assert(after.equity_curve.drop_last() =~= s.equity_curve);
}

/// Settling orders leaves the bars and the rates as they were.
pub proof fn lemma_settled_keeps_market(s: EngineView, orders: Seq<OrderView>, date: Seq<char>)
    ensures
        s.settled(orders, date).bars == s.bars,
        s.settled(orders, date).fee_bps == s.fee_bps,
        s.settled(orders, date).slippage_bps == s.slippage_bps,
    decreases orders.len(),
{
    if orders.len() > 0 {
        lemma_settled_keeps_market(s, orders.drop_last(), date);
    }
}

/// Settling `orders` appends to the queue those of them that cannot fill on
/// `date`, in their order, and to the fill log one fill for each of the
/// others, in their order and on the terms of its cached bar.
pub proof fn lemma_settled_splits(s: EngineView, orders: Seq<OrderView>, date: Seq<char>)
    ensures
        s.settled(orders, date).pending == s.pending + orders.filter(
            |o: OrderView| !s.fillable(o, date),
        ),
        s.settled(orders, date).account.fills == s.account.fills + orders.filter(
            |o: OrderView| s.fillable(o, date),
        ).map_values(|o: OrderView| s.fill_for(o, date)),
    decreases orders.len(),
{
    let stays = |o: OrderView| !s.fillable(o, date);
    let fills = |o: OrderView| s.fillable(o, date);
    let terms = |o: OrderView| s.fill_for(o, date);
    reveal(Seq::filter);
    if orders.len() == 0 {
        assert(s.pending + orders.filter(stays) =~= s.pending);
        assert(s.account.fills + orders.filter(fills).map_values(terms) =~= s.account.fills);
    } else {
        let init = orders.drop_last();
        let order = orders.last();
        lemma_settled_splits(s, init, date);
        lemma_settled_keeps_market(s, init, date);
        let before = s.settled(init, date);
        assert(before.fillable(order, date) == s.fillable(order, date));
        assert(before.fill_for(order, date) == s.fill_for(order, date));
        if s.fillable(order, date) {
            assert(orders.filter(fills) == init.filter(fills).push(order));
            assert(init.filter(fills).push(order).map_values(terms) =~= init.filter(
                fills,
            ).map_values(terms).push(terms(order)));
            assert(s.settled(orders, date).account.fills =~= s.account.fills + orders.filter(
                fills,
            ).map_values(terms));
        } else {
            assert(orders.filter(stays) == init.filter(stays).push(order));
            assert(s.settled(orders, date).pending =~= s.pending + orders.filter(stays));
        }
    }
}

/// After the fills of `date` the queue holds exactly the orders whose symbol
/// had no bar dated `date`, each as it was placed and in the order in which
/// they were placed; every other order has one fill, logged after the earlier
/// fills.
pub proof fn lemma_unfilled_stay_queued(s: EngineView, date: Seq<char>)
    ensures
        s.after_fills(date).pending == s.pending.filter(|o: OrderView| !s.fillable(o, date)),
        s.after_fills(date).account.fills == s.account.fills + s.pending.filter(
            |o: OrderView| s.fillable(o, date),
        ).map_values(|o: OrderView| s.fill_for(o, date)),
{
    lemma_settled_splits(s.drained(), s.pending, date);
    let stays = |o: OrderView| !s.fillable(o, date);
    let stays_drained = |o: OrderView| !s.drained().fillable(o, date);
    assert(stays =~= stays_drained);
    let fills = |o: OrderView| s.fillable(o, date);
    let fills_drained = |o: OrderView| s.drained().fillable(o, date);
    assert(fills =~= fills_drained);
    let terms = |o: OrderView| s.fill_for(o, date);
    let terms_drained = |o: OrderView| s.drained().fill_for(o, date);
    assert(terms =~= terms_drained);
    assert(Seq::<OrderView>::empty() + s.pending.filter(stays) =~= s.pending.filter(stays));
}

/// Closing the same date twice appends the same point twice: nothing guards
/// against a repeated date. The second close moves neither peak nor drawdown.
pub proof fn lemma_close_twice(s: EngineView, date: Seq<char>)
    ensures
        s.after_close(date).after_close(date).equity_curve == s.equity_curve.push(
            PointView { date, equity: s.equity_at(date) },
        ).push(PointView { date, equity: s.equity_at(date) }),
        s.after_close(date).after_close(date).peak_equity == s.after_close(date).peak_equity,
        s.after_close(date).after_close(date).max_drawdown == s.after_close(date).max_drawdown,
{
}

/// The peak is at least the starting cash and at least every mark; the
/// drawdown is never negative and at least the fall of every mark below the
/// peak that stood when it was taken.
pub proof fn lemma_peak_and_drawdown(starting_cash: i64, curve: Seq<PointView>, i: int)
    requires
        0 <= i < curve.len(),
    ensures
        peak_of(starting_cash, curve) >= starting_cash,
        peak_of(starting_cash, curve) >= curve[i].equity,
        peak_of(starting_cash, curve) >= peak_of(starting_cash, curve.take(i + 1)),
        drawdown_of(starting_cash, curve) >= 0,
        drawdown_of(starting_cash, curve) >= sat(
            peak_of(starting_cash, curve.take(i + 1)) - curve[i].equity,
        ),
    decreases curve.len(),
{
    lemma_peak_floor(starting_cash, curve);
    if i == curve.len() - 1 {
        assert(curve.take(i + 1) =~= curve);
    } else {
        lemma_peak_and_drawdown(starting_cash, curve.drop_last(), i);
        assert(curve.drop_last().take(i + 1) =~= curve.take(i + 1));
    }
}

/// The peak is at least the starting cash, and the drawdown is never negative.
pub proof fn lemma_peak_floor(starting_cash: i64, curve: Seq<PointView>)
    ensures
        peak_of(starting_cash, curve) >= starting_cash,
        drawdown_of(starting_cash, curve) >= 0,
    decreases curve.len(),
{
    if curve.len() > 0 {
        lemma_peak_floor(starting_cash, curve.drop_last());
    }
}

} // verus!
