//! The account: cash, the position ledger, the fill log and the running
//! totals that fills move.

use vstd::prelude::*;
use crate::ledger::{marked_value, position_in, Ledger};
use crate::market::BarCache;
use crate::money::{clamp, notional, notional_of, sat, sat_add};
use crate::position::{lemma_round_trip, lemma_trades_keep_tidy, Position};
use crate::types::{clone_records, views, BarView, Fill, FillView, Side};

verus! {

/// What an `Account` stands for.
pub struct AccountView {
    pub cash: i64,
    /// Symbols traded so far, in the order of their first fill.
    pub held: Seq<Seq<char>>,
    /// Position of each traded symbol.
    pub book: Map<Seq<char>, Position>,
    /// Every fill so far, oldest first.
    pub fills: Seq<FillView>,
    pub realized_pnl: i64,
    pub fees_paid: i64,
    pub trades_closed: i64,
    pub wins: i64,
}

impl AccountView {
    /// All cash, nothing traded.
    pub open spec fn start(cash: i64) -> AccountView {
        AccountView {
            cash,
            held: Seq::empty(),
            book: Map::empty(),
            fills: Seq::empty(),
            realized_pnl: 0,
            fees_paid: 0,
            trades_closed: 0,
            wins: 0,
        }
    }

    /// The position of `symbol`: flat if it never traded.
    pub open spec fn position(self, symbol: Seq<char>) -> Position {
        position_in(self.book, symbol)
    }

    /// The symbols traded once `symbol` has traded.
    pub open spec fn held_with(self, symbol: Seq<char>) -> Seq<Seq<char>> {
        if self.book.contains_key(symbol) {
            self.held
        } else {
            self.held.push(symbol)
        }
    }

    /// The account after `fill`. A buy pays notional plus fee and raises the
    /// position at a new average cost. A sell receives notional less fee,
    /// realizes the gain against the average cost, counts as a closed trade
    /// (a win if the gain is positive) and lowers the position, whatever was
    /// held. Either way the fee is added to the fees paid and the fill is
    /// logged.
    pub open spec fn executed(self, fill: FillView) -> AccountView {
        let notional = notional_of(fill.price, fill.quantity);
        let position = self.position(fill.symbol);
        match fill.side {
            Side::Buy => AccountView {
                cash: sat(self.cash - (notional + fill.fee)),
                held: self.held_with(fill.symbol),
                book: self.book.insert(fill.symbol, position.bought(fill.price, fill.quantity)),
                fees_paid: sat(self.fees_paid + fill.fee),
                fills: self.fills.push(fill),
                ..self
            },
            Side::Sell => {
                let gain = position.gain_on_sale(fill.price, fill.quantity);
                AccountView {
                    cash: sat(self.cash + (notional - fill.fee)),
                    held: self.held_with(fill.symbol),
                    book: self.book.insert(fill.symbol, position.sold(fill.quantity)),
                    realized_pnl: sat(self.realized_pnl + gain),
                    trades_closed: sat(self.trades_closed + 1),
                    wins: if gain > 0 {
                        sat(self.wins + 1)
                    } else {
                        self.wins
                    },
                    fees_paid: sat(self.fees_paid + fill.fee),
                    fills: self.fills.push(fill),
                }
            },
        }
    }

    /// The account after each of `fills`, oldest first.
    pub open spec fn executed_all(self, fills: Seq<FillView>) -> AccountView
        decreases fills.len(),
    {
        if fills.len() == 0 {
            self
        } else {
            self.executed_all(fills.drop_last()).executed(fills.last())
        }
    }

    /// What holds of every account: each traded symbol is listed once and
    /// has a position, no other symbol has one, no position carries an average
    /// cost unless it is long, the closed trades are the sells in the log, and
    /// the wins are among them.
    pub open spec fn inv(self) -> bool {
        &&& self.held.no_duplicates()
        &&& forall|symbol: Seq<char>|
            #![trigger self.book.contains_key(symbol)]
            #![trigger self.held.contains(symbol)]
            self.book.contains_key(symbol) <==> self.held.contains(symbol)
        &&& forall|symbol: Seq<char>| #[trigger]
            self.book.contains_key(symbol) ==> self.book[symbol].tidy()
        &&& self.trades_closed == sat(sells(self.fills) as int)
        &&& 0 <= self.wins <= self.trades_closed
    }

    /// Cash plus the marks of every position whose bar is dated `date`,
    /// summed exactly and then brought into range.
    pub open spec fn equity_at(self, bars: Map<Seq<char>, BarView>, date: Seq<char>) -> i64 {
        sat(self.cash + marked_value(self.held, self.book, bars, date))
    }
}

/// How many of `fills` are sells.
pub open spec fn sells(fills: Seq<FillView>) -> nat
    decreases fills.len(),
{
    if fills.len() == 0 {
        0
    } else {
        sells(fills.drop_last()) + if fills.last().side == Side::Sell {
            1nat
        } else {
            0nat
        }
    }
}

/// A fresh account stands as every account does.
pub proof fn lemma_fresh_account_inv(cash: i64)
    ensures
        AccountView::start(cash).inv(),
{
}

/// A fill leaves the account as every account stands; in particular a
/// position that is flat or short after it has an average cost of zero.
pub proof fn lemma_executed_inv(account: AccountView, fill: FillView)
    requires
        account.inv(),
    ensures
        account.executed(fill).inv(),
{
    let after = account.executed(fill);
    let position = account.position(fill.symbol);
    lemma_trades_keep_tidy(position, fill.price, fill.quantity);
    assert(after.fills.drop_last() =~= account.fills);
    if !account.book.contains_key(fill.symbol) {
        assert(after.held.last() == fill.symbol);
        assert(after.held.drop_last() =~= account.held);
    }
    assert forall|symbol: Seq<char>| after.book.contains_key(symbol) <==> after.held.contains(
        symbol,
    ) by {
        if after.book.contains_key(symbol) {
            if account.book.contains_key(symbol) {
                assert(account.held.contains(symbol));
                let i = choose|i: int| 0 <= i < account.held.len() && account.held[i] == symbol;
                assert(after.held[i] == symbol);
            } else {
                assert(after.held[account.held.len() as int] == symbol);
            }
        }
        if after.held.contains(symbol) {
            let i = choose|i: int| 0 <= i < after.held.len() && after.held[i] == symbol;
            if i < account.held.len() {
                assert(account.held[i] == symbol);
                assert(account.held.contains(symbol));
            }
        }
    }
    assert(after.held.no_duplicates()) by {
        if !account.book.contains_key(fill.symbol) {
            assert forall|i: int| 0 <= i < account.held.len() implies account.held[i]
                != fill.symbol by {
                assert(account.held.contains(account.held[i]));
            }
        }
    }
}

/// The price and quantity of each fill.
pub open spec fn terms_of(fills: Seq<FillView>) -> Seq<(i64, i64)> {
    Seq::new(fills.len(), |i: int| (fills[i].price, fills[i].quantity))
}

/// After any run of buy fills on one symbol, the position in that symbol is
/// the one the weighted-average formula gives, applied fill by fill to the
/// executed prices and quantities.
pub proof fn lemma_buys_build_average(account: AccountView, fills: Seq<FillView>, symbol: Seq<char>)
    requires
        forall|i: int|
            0 <= i < fills.len() ==> (#[trigger] fills[i]).side == Side::Buy && fills[i].symbol
                == symbol,
    ensures
        account.executed_all(fills).position(symbol) == account.position(symbol).after_buys(
            terms_of(fills),
        ),
    decreases fills.len(),
{
    if fills.len() > 0 {
        let init = fills.drop_last();
        assert forall|i: int| 0 <= i < init.len() implies (#[trigger] init[i]).side == Side::Buy
            && init[i].symbol == symbol by {
            assert(init[i] == fills[i]);
        }
        lemma_buys_build_average(account, init, symbol);
        assert(terms_of(fills).drop_last() =~= terms_of(init));
        assert(terms_of(fills).last() == (fills.last().price, fills.last().quantity));
    }
}

/// Buying `quantity` of a symbol not held at `buy_price` and selling all of
/// it at `sell_price` adds `(sell_price - buy_price) * quantity` to the
/// realized profit, whatever the two fees, counts one closed trade and leaves
/// the symbol flat. Holds wherever the cost, the price difference and the
/// gain fit in `i64`.
pub proof fn lemma_round_trip_realizes(account: AccountView, buy: FillView, sell: FillView)
    requires
        account.position(buy.symbol) == Position::flat(),
        buy.side == Side::Buy,
        sell.side == Side::Sell,
        sell.symbol == buy.symbol,
        sell.quantity == buy.quantity,
        buy.quantity > 0,
        i64::MIN <= buy.price * buy.quantity <= i64::MAX,
        i64::MIN <= sell.price - buy.price <= i64::MAX,
        i64::MIN <= (sell.price - buy.price) * buy.quantity <= i64::MAX,
    ensures
        account.executed(buy).position(buy.symbol) == (Position {
            quantity: buy.quantity,
            average_cost: buy.price,
        }),
        account.executed(buy).executed(sell).realized_pnl == sat(
            account.realized_pnl + (sell.price - buy.price) * buy.quantity,
        ),
        account.executed(buy).executed(sell).trades_closed == sat(account.trades_closed + 1),
        account.executed(buy).executed(sell).position(buy.symbol) == Position::flat(),
{
    lemma_round_trip(buy.price, buy.quantity, sell.price);
}

/// Cash, positions, fill log and running totals.
pub struct Account {
    cash: i64,
    ledger: Ledger,
    fills: Vec<Fill>,
    realized_pnl: i64,
    fees_paid: i64,
    trades_closed: i64,
    wins: i64,
}

impl View for Account {
    type V = AccountView;

    closed spec fn view(&self) -> AccountView {
        AccountView {
            cash: self.cash,
            held: self.ledger.held(),
            book: self.ledger.book(),
            fills: views(self.fills@),
            realized_pnl: self.realized_pnl,
            fees_paid: self.fees_paid,
            trades_closed: self.trades_closed,
            wins: self.wins,
        }
    }
}

impl Account {
    #[verifier::type_invariant]
    spec fn sound(self) -> bool {
        self@.inv()
    }

    /// An account that holds `cash` and nothing else.
    pub fn new(cash: i64) -> (account: Account)
        ensures
            account@ == AccountView::start(cash),
            account@.inv(),
    {
        let ledger = Ledger::new();
        let fills: Vec<Fill> = Vec::new();
        assert(views(fills@) =~= Seq::<FillView>::empty());
        Account { cash, ledger, fills, realized_pnl: 0, fees_paid: 0, trades_closed: 0, wins: 0 }
    }

    /// Applies one fill.
    pub fn execute(&mut self, fill: Fill)
        ensures
            final(self)@ == old(self)@.executed(fill@),
            final(self)@.inv(),
    {
        proof {
            use_type_invariant(&*self);
            lemma_executed_inv(self@, fill@);
        }
        let mut taken = Account::new(0);
        std::mem::swap(self, &mut taken);
        let Account {
            mut cash,
            mut ledger,
            mut fills,
            mut realized_pnl,
            mut fees_paid,
            mut trades_closed,
            mut wins,
        } = taken;
        let amount = notional(fill.price, fill.quantity);
        let position = ledger.position(fill.symbol.as_str());
        match fill.side {
            Side::Buy => {
                cash = clamp(cash as i128 - (amount as i128 + fill.fee as i128));
                ledger.record(fill.symbol.clone(), position.buy(fill.price, fill.quantity));
            },
            Side::Sell => {
                let gain = position.realized_on_sale(fill.price, fill.quantity);
                cash = clamp(cash as i128 + (amount as i128 - fill.fee as i128));
                ledger.record(fill.symbol.clone(), position.sell(fill.quantity));
                realized_pnl = sat_add(realized_pnl, gain);
                trades_closed = sat_add(trades_closed, 1);
                if gain > 0 {
                    wins = sat_add(wins, 1);
                }
            },
        }
        fees_paid = sat_add(fees_paid, fill.fee);
        assert(views(fills@.push(fill)) =~= views(fills@).push(fill@));
        fills.push(fill);
        *self = Account { cash, ledger, fills, realized_pnl, fees_paid, trades_closed, wins };
    }

    /// Equity at the close of `date`, marking each position to the close of
    /// its bar if that bar is dated `date`.
    pub fn equity(&self, bars: &BarCache, date: &String) -> (equity: i64)
        ensures
            equity == self@.equity_at(bars@, date@),
    {
        let marks = self.ledger.value(bars, date);
        clamp(self.cash as i128 + marks)
    }

    pub fn cash(&self) -> (cash: i64)
        ensures
            cash == self@.cash,
    {
        self.cash
    }

    /// The position of `symbol`; its average cost is zero unless it is long.
    pub fn position(&self, symbol: &str) -> (p: Position)
        ensures
            p == self@.position(symbol@),
            p.tidy(),
    {
        proof {
            use_type_invariant(self);
            if self@.book.contains_key(symbol@) {
                assert(self@.book[symbol@].tidy());
            }
        }
        self.ledger.position(symbol)
    }

    /// Every fill so far, oldest first.
    pub fn fills(&self) -> (log: Vec<Fill>)
        ensures
            views(log@) == self@.fills,
    {
        clone_records(&self.fills)
    }

    /// Gains realized by sells so far, fees apart.
    pub fn realized_pnl(&self) -> (total: i64)
        ensures
            total == self@.realized_pnl,
    {
        self.realized_pnl
    }

    /// Fees charged so far.
    pub fn fees_paid(&self) -> (total: i64)
        ensures
            total == self@.fees_paid,
    {
        self.fees_paid
    }

    /// Sells executed so far.
    pub fn trades_closed(&self) -> (count: i64)
        ensures
            count == self@.trades_closed,
            count == sat(sells(self@.fills) as int),
    {
        proof {
            use_type_invariant(self);
        }
        self.trades_closed
    }

    /// Sells that realized a positive gain.
    pub fn wins(&self) -> (count: i64)
        ensures
            count == self@.wins,
            0 <= count <= self@.trades_closed,
    {
        proof {
            use_type_invariant(self);
        }
        self.wins
    }
}

} // verus!
