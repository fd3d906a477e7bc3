//! The engine: market state, order queue, account and equity curve behind
//! one interface, driven one trading date at a time.

use vstd::prelude::*;
use crate::account::Account;
use crate::fills::fill_order;
use crate::market::BarCache;
use crate::model::{
    lemma_after_close_inv, lemma_after_fills_inv, lemma_peak_floor, lemma_settled_keeps_market,
    lemma_start_inv, lemma_unfilled_stay_queued, lemma_with_bar_inv, lemma_with_order_inv,
    steps_of, EngineView,
};
use crate::money::sat_sub;
use crate::types::{
    clone_records, views, Bar, EquityPoint, Fill, OrderView, PendingOrder, Side,
};

verus! {

/// The running totals, exact to the subunit. Ratios and statistics are for
/// the caller to derive from these and from the return steps.
#[derive(Clone, Copy, PartialEq, Eq, Structural, Debug)]
pub struct Metrics {
    pub realized_pnl: i64,
    pub fees_paid: i64,
    pub trades_closed: i64,
    pub wins: i64,
    pub peak_equity: i64,
    pub max_drawdown: i64,
}

/// A backtesting engine. Each instance owns all of its state.
pub struct Engine {
    starting_cash: i64,
    fee_bps: i64,
    slippage_bps: i64,
    bars: BarCache,
    pending: Vec<PendingOrder>,
    next_order_id: i64,
    account: Account,
    equity_curve: Vec<EquityPoint>,
    peak_equity: i64,
    max_drawdown: i64,
}

impl View for Engine {
    type V = EngineView;

    closed spec fn view(&self) -> EngineView {
        EngineView {
            starting_cash: self.starting_cash,
            fee_bps: self.fee_bps,
            slippage_bps: self.slippage_bps,
            bars: self.bars@,
            pending: views(self.pending@),
            next_order_id: self.next_order_id,
            account: self.account@,
            equity_curve: views(self.equity_curve@),
            peak_equity: self.peak_equity,
            max_drawdown: self.max_drawdown,
        }
    }
}

impl Engine {
    #[verifier::type_invariant]
    spec fn sound(self) -> bool {
        self@.inv()
    }

    /// An engine that starts with `starting_cash` and charges `fee_bps` and
    /// `slippage_bps` basis points on every fill.
    pub fn new(starting_cash: i64, fee_bps: i64, slippage_bps: i64) -> (engine: Engine)
        ensures
            engine@ == EngineView::start(starting_cash, fee_bps, slippage_bps),
            engine@.inv(),
    {
        let bars = BarCache::new();
        let pending: Vec<PendingOrder> = Vec::new();
        let account = Account::new(starting_cash);
        let equity_curve: Vec<EquityPoint> = Vec::new();
        proof {
            assert(views(pending@) =~= Seq::empty());
            assert(views(equity_curve@) =~= Seq::empty());
            lemma_start_inv(starting_cash, fee_bps, slippage_bps);
        }
        Engine {
            starting_cash,
            fee_bps,
            slippage_bps,
            bars,
            pending,
            next_order_id: 1,
            account,
            equity_curve,
            peak_equity: starting_cash,
            max_drawdown: 0,
        }
    }

    /// Caches the bar of `symbol` for `date`, replacing any earlier bar of
    /// that symbol.
    pub fn on_bar(
        &mut self,
        date: String,
        symbol: String,
        open: i64,
        high: i64,
        low: i64,
        close: i64,
        volume: i64,
    )
        ensures
            final(self)@ == old(self)@.with_bar(
                (Bar { date, symbol, open, high, low, close, volume })@,
            ),
            final(self)@.inv(),
    {
        let bar = Bar { date, symbol, open, high, low, close, volume };
        proof {
            use_type_invariant(&*self);
            lemma_with_bar_inv(self@, bar@);
        }
        let mut taken = Engine::new(0, 0, 0);
        std::mem::swap(self, &mut taken);
        let Engine {
            starting_cash,
            fee_bps,
            slippage_bps,
            mut bars,
            pending,
            next_order_id,
            account,
            equity_curve,
            peak_equity,
            max_drawdown,
        } = taken;
        bars.update(bar);
        *self = Engine {
            starting_cash,
            fee_bps,
            slippage_bps,
            bars,
            pending,
            next_order_id,
            account,
            equity_curve,
            peak_equity,
            max_drawdown,
        };
    }

    /// Queues a market order and returns its id, which no other order of this
    /// engine has or will have.
    pub fn place_market_order(&mut self, symbol: String, side: Side, quantity: i64) -> (order_id:
        i64)
        requires
            old(self)@.next_order_id < i64::MAX,
        ensures
            order_id == old(self)@.next_order_id,
            final(self)@ == old(self)@.with_order(symbol@, side, quantity),
            final(self)@.inv(),
    {
        proof {
            use_type_invariant(&*self);
            lemma_with_order_inv(self@, symbol@, side, quantity);
        }
        let mut taken = Engine::new(0, 0, 0);
        std::mem::swap(self, &mut taken);
        let Engine {
            starting_cash,
            fee_bps,
            slippage_bps,
            bars,
            mut pending,
            next_order_id,
            account,
            equity_curve,
            peak_equity,
            max_drawdown,
        } = taken;
        let order = PendingOrder { order_id: next_order_id, symbol, side, quantity };
        assert(views(pending@.push(order)) =~= views(pending@).push(order@));
        pending.push(order);
        *self = Engine {
            starting_cash,
            fee_bps,
            slippage_bps,
            bars,
            pending,
            next_order_id: next_order_id + 1,
            account,
            equity_curve,
            peak_equity,
            max_drawdown,
        };
        next_order_id
    }

    /// Executes, oldest first, every queued order whose symbol has a bar
    /// dated `date`, at that bar's open after slippage. The others stay
    /// queued as they were placed and in the order in which they were placed.
    pub fn process_fills_for_date(&mut self, date: String)
        ensures
            final(self)@ == old(self)@.after_fills(date@),
            final(self)@.pending == old(self)@.pending.filter(
                |o: OrderView| !old(self)@.fillable(o, date@),
            ),
            final(self)@.account.fills == old(self)@.account.fills + old(self)@.pending.filter(
                |o: OrderView| old(self)@.fillable(o, date@),
            ).map_values(|o: OrderView| old(self)@.fill_for(o, date@)),
            final(self)@.inv(),
    {
        proof {
            use_type_invariant(&*self);
            lemma_after_fills_inv(self@, date@);
            lemma_unfilled_stay_queued(self@, date@);
        }
        let mut taken = Engine::new(0, 0, 0);
        std::mem::swap(self, &mut taken);
        let Engine {
            starting_cash,
            fee_bps,
            slippage_bps,
            bars,
            pending: orders,
            next_order_id,
            mut account,
            equity_curve,
            peak_equity,
            max_drawdown,
        } = taken;
        let ghost drained = old(self)@.drained();
        let mut pending: Vec<PendingOrder> = Vec::new();
        assert(views(pending@) =~= Seq::empty());
        let mut i: usize = 0;
        while i < orders.len()
            invariant
                i <= orders.len(),
                drained.bars == bars@,
                drained.fee_bps == fee_bps,
                drained.slippage_bps == slippage_bps,
                (EngineView { pending: views(pending@), account: account@, ..drained })
                    == drained.settled(views(orders@).take(i as int), date@),
            decreases orders.len() - i,
        {
            let order = &orders[i];
            let ghost queued = views(pending@);
            proof {
                assert(views(orders@).take(i + 1).drop_last() =~= views(orders@).take(i as int));
                assert(views(orders@).take(i + 1).last() == order@);
                lemma_settled_keeps_market(drained, views(orders@).take(i as int), date@);
            }
            match bars.bar_on(order.symbol.as_str(), &date) {
                Some(bar) => {
                    let fill = fill_order(order, bar.open, &date, fee_bps, slippage_bps);
                    account.execute(fill);
                },
                None => {
                    pending.push(order.clone());
                    assert(views(pending@) =~= queued.push(order@));
                },
            }
            i += 1;
        }
        assert(views(orders@).take(i as int) =~= views(orders@));
        *self = Engine {
            starting_cash,
            fee_bps,
            slippage_bps,
            bars,
            pending,
            next_order_id,
            account,
            equity_curve,
            peak_equity,
            max_drawdown,
        };
    }

    /// Marks equity at the close of `date` and appends it to the curve,
    /// whether or not the date was marked before.
    pub fn end_of_day(&mut self, date: String)
        ensures
            final(self)@ == old(self)@.after_close(date@),
            final(self)@.inv(),
    {
        proof {
            use_type_invariant(&*self);
            lemma_after_close_inv(self@, date@);
        }
        let mut taken = Engine::new(0, 0, 0);
        std::mem::swap(self, &mut taken);
        let Engine {
            starting_cash,
            fee_bps,
            slippage_bps,
            bars,
            pending,
            next_order_id,
            account,
            mut equity_curve,
            peak_equity,
            max_drawdown,
        } = taken;
        let equity = account.equity(&bars, &date);
        let peak = if equity > peak_equity { equity } else { peak_equity };
        let fall = sat_sub(peak, equity);
        let point = EquityPoint { date, equity };
        assert(views(equity_curve@.push(point)) =~= views(equity_curve@).push(point@));
        equity_curve.push(point);
        *self = Engine {
            starting_cash,
            fee_bps,
            slippage_bps,
            bars,
            pending,
            next_order_id,
            account,
            equity_curve,
            peak_equity: peak,
            max_drawdown: if fall > max_drawdown { fall } else { max_drawdown },
        };
    }

    /// The id the next order will get.
    pub fn next_order_id(&self) -> (id: i64)
        ensures
            id == self@.next_order_id,
            id >= 1,
    {
        proof {
            use_type_invariant(self);
        }
        self.next_order_id
    }

    /// Cash in hand; negative once more was spent than there was.
    pub fn cash(&self) -> (cash: i64)
        ensures
            cash == self@.account.cash,
    {
        self.account.cash()
    }

    /// The quantity held of `symbol`: zero if it never traded.
    pub fn position(&self, symbol: &str) -> (quantity: i64)
        ensures
            quantity == self@.account.position(symbol@).quantity,
    {
        self.account.position(symbol).quantity
    }

    /// The average cost of the position in `symbol`: zero unless it is long.
    pub fn average_cost(&self, symbol: &str) -> (cost: i64)
        ensures
            cost == self@.account.position(symbol@).average_cost,
            self@.account.position(symbol@).quantity <= 0 ==> cost == 0,
    {
        self.account.position(symbol).average_cost
    }

    /// The cached bar of `symbol`, if one was ever seen.
    pub fn latest_bar(&self, symbol: &str) -> (found: Option<Bar>)
        ensures
            found is Some <==> self@.bars.contains_key(symbol@),
            found is Some ==> found->0@ == self@.bars[symbol@] && found->0@.symbol == symbol@,
    {
        proof {
            use_type_invariant(self);
        }
        match self.bars.latest(symbol) {
            Some(bar) => Some(bar.clone()),
            None => None,
        }
    }

    /// The orders still queued, oldest first.
    pub fn pending_orders(&self) -> (queue: Vec<PendingOrder>)
        ensures
            views(queue@) == self@.pending,
    {
        clone_records(&self.pending)
    }

    /// Every point marked so far, in the order of the calls that marked them.
    pub fn equity_curve(&self) -> (curve: Vec<EquityPoint>)
        ensures
            views(curve@) == self@.equity_curve,
    {
        clone_records(&self.equity_curve)
    }

    /// Every fill so far, oldest first.
    pub fn fills(&self) -> (log: Vec<Fill>)
        ensures
            views(log@) == self@.account.fills,
    {
        self.account.fills()
    }

    /// The running totals as they stand.
    pub fn metrics(&self) -> (m: Metrics)
        ensures
            m.realized_pnl == self@.account.realized_pnl,
            m.fees_paid == self@.account.fees_paid,
            m.trades_closed == self@.account.trades_closed,
            m.wins == self@.account.wins,
            m.peak_equity == self@.peak_equity,
            m.max_drawdown == self@.max_drawdown,
            0 <= m.wins <= m.trades_closed,
            m.peak_equity >= self@.starting_cash,
            m.max_drawdown >= 0,
            self@.inv(),
    {
        proof {
            use_type_invariant(self);
            lemma_peak_floor(self@.starting_cash, self@.equity_curve);
        }
        Metrics {
            realized_pnl: self.account.realized_pnl(),
            fees_paid: self.account.fees_paid(),
            trades_closed: self.account.trades_closed(),
            wins: self.account.wins(),
            peak_equity: self.peak_equity,
            max_drawdown: self.max_drawdown,
        }
    }

    /// Each mark paired with the mark after it, for every step whose first
    /// mark is not zero: the steps a simple return can be taken over.
    pub fn return_steps(&self) -> (steps: Vec<(i64, i64)>)
        ensures
            steps@ == steps_of(self@.equity_curve),
    {
        let mut steps: Vec<(i64, i64)> = Vec::new();
        let ghost curve = views(self.equity_curve@);
        if self.equity_curve.len() < 2 {
            return steps;
        }
        assert(curve.take(1).len() < 2);
        let mut i: usize = 1;
        while i < self.equity_curve.len()
            invariant
                1 <= i <= self.equity_curve.len(),
                curve == views(self.equity_curve@),
                steps@ == steps_of(curve.take(i as int)),
            decreases self.equity_curve.len() - i,
        {
            let from = self.equity_curve[i - 1].equity;
            let to = self.equity_curve[i].equity;
            proof {
                let next = curve.take(i + 1);
                assert(next.drop_last() =~= curve.take(i as int));
                assert(next[next.len() - 2] == curve[i - 1]);
                assert(next.last() == curve[i as int]);
            }
            if from != 0 {
                steps.push((from, to));
            }
            i += 1;
        }
        assert(curve.take(i as int) =~= curve);
        steps
    }
}

} // verus!
