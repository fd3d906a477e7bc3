//! The records the engine keeps, each with the mathematical value it stands for.

use vstd::prelude::*;

verus! {

/// Direction of a market order.
#[derive(Clone, Copy, PartialEq, Eq, Structural, Debug)]
pub enum Side {
    Buy,
    Sell,
}

impl Side {
    /// The name a side goes by: `BUY` or `SELL`.
    pub open spec fn name_of(self) -> Seq<char> {
        match self {
            Side::Buy => "BUY"@,
            Side::Sell => "SELL"@,
        }
    }

    /// The name of this side.
    pub fn name(self) -> (name: String)
        ensures
            name@ == self.name_of(),
    {
        match self {
            Side::Buy => "BUY".to_owned(),
            Side::Sell => "SELL".to_owned(),
        }
    }

    /// The side that goes by `name`, if there is one.
    pub fn parse(name: &str) -> (side: Option<Side>)
        ensures
            side == if name@ == Side::Buy.name_of() {
                Some(Side::Buy)
            } else if name@ == Side::Sell.name_of() {
                Some(Side::Sell)
            } else {
                None::<Side>
            },
    {
        let name = name.to_owned();
        if name == Side::Buy.name() {
            Some(Side::Buy)
        } else if name == Side::Sell.name() {
            Some(Side::Sell)
        } else {
            None
        }
    }
}

/// The two sides go by different names, so a name stands for one side at most.
pub proof fn lemma_side_names_differ()
    ensures
        Side::Buy.name_of() != Side::Sell.name_of(),
{
    reveal_strlit("BUY");
    reveal_strlit("SELL");
    assert("BUY"@.len() == 3);
    assert("SELL"@.len() == 4);
}

/// One daily price bar of one symbol.
#[derive(Debug)]
pub struct Bar {
    pub date: String,
    pub symbol: String,
    pub open: i64,
    pub high: i64,
    pub low: i64,
    pub close: i64,
    pub volume: i64,
}

/// What a `Bar` stands for.
pub struct BarView {
    pub date: Seq<char>,
    pub symbol: Seq<char>,
    pub open: i64,
    pub high: i64,
    pub low: i64,
    pub close: i64,
    pub volume: i64,
}

impl View for Bar {
    type V = BarView;

    open spec fn view(&self) -> BarView {
        BarView {
            date: self.date@,
            symbol: self.symbol@,
            open: self.open,
            high: self.high,
            low: self.low,
            close: self.close,
            volume: self.volume,
        }
    }
}

impl Clone for Bar {
    fn clone(&self) -> (r: Self)
        ensures
            r@ == self@,
    {
        Bar {
            date: self.date.clone(),
            symbol: self.symbol.clone(),
            open: self.open,
            high: self.high,
            low: self.low,
            close: self.close,
            volume: self.volume,
        }
    }
}

/// A market order waiting for the next bar of its symbol.
#[derive(Debug)]
pub struct PendingOrder {
    pub order_id: i64,
    pub symbol: String,
    pub side: Side,
    pub quantity: i64,
}

/// What a `PendingOrder` stands for.
pub struct OrderView {
    pub order_id: i64,
    pub symbol: Seq<char>,
    pub side: Side,
    pub quantity: i64,
}

impl View for PendingOrder {
    type V = OrderView;

    open spec fn view(&self) -> OrderView {
        OrderView {
            order_id: self.order_id,
            symbol: self.symbol@,
            side: self.side,
            quantity: self.quantity,
        }
    }
}

impl Clone for PendingOrder {
    fn clone(&self) -> (r: Self)
        ensures
            r@ == self@,
    {
        PendingOrder {
            order_id: self.order_id,
            symbol: self.symbol.clone(),
            side: self.side,
            quantity: self.quantity,
        }
    }
}

/// The executed terms of one order.
#[derive(Debug)]
pub struct Fill {
    pub date: String,
    pub symbol: String,
    pub side: Side,
    pub quantity: i64,
    pub price: i64,
    pub fee: i64,
    pub order_id: i64,
}

/// What a `Fill` stands for.
pub struct FillView {
    pub date: Seq<char>,
    pub symbol: Seq<char>,
    pub side: Side,
    pub quantity: i64,
    pub price: i64,
    pub fee: i64,
    pub order_id: i64,
}

impl View for Fill {
    type V = FillView;

    open spec fn view(&self) -> FillView {
        FillView {
            date: self.date@,
            symbol: self.symbol@,
            side: self.side,
            quantity: self.quantity,
            price: self.price,
            fee: self.fee,
            order_id: self.order_id,
        }
    }
}

impl Clone for Fill {
    fn clone(&self) -> (r: Self)
        ensures
            r@ == self@,
    {
        Fill {
            date: self.date.clone(),
            symbol: self.symbol.clone(),
            side: self.side,
            quantity: self.quantity,
            price: self.price,
            fee: self.fee,
            order_id: self.order_id,
        }
    }
}

/// Equity marked at the end of one day.
#[derive(Debug)]
pub struct EquityPoint {
    pub date: String,
    pub equity: i64,
}

/// What an `EquityPoint` stands for.
pub struct PointView {
    pub date: Seq<char>,
    pub equity: i64,
}

impl View for EquityPoint {
    type V = PointView;

    open spec fn view(&self) -> PointView {
        PointView { date: self.date@, equity: self.equity }
    }
}

impl Clone for EquityPoint {
    fn clone(&self) -> (r: Self)
        ensures
            r@ == self@,
    {
        EquityPoint { date: self.date.clone(), equity: self.equity }
    }
}

/// The values behind a sequence of records, in the same order.
pub open spec fn views<T: View>(s: Seq<T>) -> Seq<T::V> {
    Seq::new(s.len(), |i: int| s[i]@)
}

/// A copy of `v`, record by record.
pub(crate) fn clone_records<T: View + Clone>(v: &Vec<T>) -> (r: Vec<T>)
    requires
        forall|x: T, y: T| call_ensures(T::clone, (&x,), y) ==> y@ == x@,
    ensures
        views(r@) == views(v@),
{
    let mut r: Vec<T> = Vec::new();
    let mut i: usize = 0;
    while i < v.len()
        invariant
            i <= v.len(),
            r.len() == i,
            forall|j: int| 0 <= j < i ==> r[j]@ == v[j]@,
            forall|x: T, y: T| call_ensures(T::clone, (&x,), y) ==> y@ == x@,
        decreases v.len() - i,
    {
        r.push(v[i].clone());
        i += 1;
    }
    assert(views(r@) =~= views(v@));
    r
}

} // verus!
