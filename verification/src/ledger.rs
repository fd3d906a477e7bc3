//! The position ledger: one position per symbol ever traded, kept in the
//! order in which the symbols were first traded.

use vstd::prelude::*;
use vstd::hash_map::StringHashMap;
use crate::market::{has_bar, BarCache};
use crate::money::{sat, sat_mul};
use crate::position::Position;
use crate::types::BarView;

verus! {

/// The symbols behind a sequence of strings.
pub open spec fn names(symbols: Seq<String>) -> Seq<Seq<char>> {
    Seq::new(symbols.len(), |i: int| symbols[i]@)
}

/// The position of `symbol`: flat if it was never traded.
pub open spec fn position_in(book: Map<Seq<char>, Position>, symbol: Seq<char>) -> Position {
    if book.contains_key(symbol) {
        book[symbol]
    } else {
        Position::flat()
    }
}

/// What the position of `symbol` is worth at the close of `date`: quantity
/// times close if the cached bar is dated `date`, nothing if the bar is stale
/// or missing.
pub open spec fn mark(
    book: Map<Seq<char>, Position>,
    bars: Map<Seq<char>, BarView>,
    symbol: Seq<char>,
    date: Seq<char>,
) -> int {
    if has_bar(bars, symbol, date) {
        sat(bars[symbol].close * position_in(book, symbol).quantity) as int
    } else {
        0
    }
}

/// The marks of `held`, summed.
pub open spec fn marked_value(
    held: Seq<Seq<char>>,
    book: Map<Seq<char>, Position>,
    bars: Map<Seq<char>, BarView>,
    date: Seq<char>,
) -> int
    decreases held.len(),
{
    if held.len() == 0 {
        0
    } else {
        marked_value(held.drop_last(), book, bars, date) + mark(book, bars, held.last(), date)
    }
}

/// The positions of every symbol traded so far.
pub struct Ledger {
    symbols: Vec<String>,
    book: StringHashMap<Position>,
}

impl Ledger {
    /// The symbols traded so far, in the order of their first trade.
    pub closed spec fn held(&self) -> Seq<Seq<char>> {
        names(self.symbols@)
    }

    /// The position recorded for each traded symbol.
    pub closed spec fn book(&self) -> Map<Seq<char>, Position> {
        self.book@
    }

    /// An empty ledger.
    pub fn new() -> (ledger: Ledger)
        ensures
            ledger.held() == Seq::<Seq<char>>::empty(),
            ledger.book() == Map::<Seq<char>, Position>::empty(),
    {
        let ledger = Ledger { symbols: Vec::new(), book: StringHashMap::new() };
        assert(ledger.held() =~= Seq::<Seq<char>>::empty());
        ledger
    }

    /// The position of `symbol`: flat if it was never recorded.
    pub fn position(&self, symbol: &str) -> (p: Position)
        ensures
            p == position_in(self.book(), symbol@),
    {
        match self.book.get(symbol) {
            Some(p) => *p,
            None => Position::new(),
        }
    }

    /// Sets the position of `symbol`, listing the symbol if it is new.
    pub fn record(&mut self, symbol: String, p: Position)
        ensures
            final(self).book() == old(self).book().insert(symbol@, p),
            final(self).held() == if old(self).book().contains_key(symbol@) {
                old(self).held()
            } else {
                old(self).held().push(symbol@)
            },
    {
        if !self.book.contains_key(symbol.as_str()) {
            self.symbols.push(symbol.clone());
            assert(self.held() =~= old(self).held().push(symbol@));
        }
        self.book.insert(symbol, p);
    }

    /// The summed marks of every listed symbol at the close of `date`.
    pub fn value(&self, bars: &BarCache, date: &String) -> (total: i128)
        ensures
            total == marked_value(self.held(), self.book(), bars@, date@),
            -(self.held().len() * 0x8000_0000_0000_0000) <= total <= self.held().len()
                * 0x7fff_ffff_ffff_ffff,
            self.held().len() <= usize::MAX,
    {
        let mut total: i128 = 0;
        let mut i: usize = 0;
        while i < self.symbols.len()
            invariant
                i <= self.symbols.len(),
                total == marked_value(self.held().take(i as int), self.book(), bars@, date@),
                -(i * 0x8000_0000_0000_0000) <= total <= i * 0x7fff_ffff_ffff_ffff,
            decreases self.symbols.len() - i,
        {
            let symbol = &self.symbols[i];
            let quantity = self.position(symbol.as_str()).quantity;
            proof {
                assert(self.held().take(i + 1).drop_last() =~= self.held().take(i as int));
                assert(self.held().take(i + 1).last() == symbol@);
            }
            match bars.bar_on(symbol.as_str(), date) {
                Some(bar) => {
                    total = total + sat_mul(bar.close, quantity) as i128;
                },
                None => {},
            }
            i += 1;
        }
        assert(self.held().take(i as int) =~= self.held());
        total
    }
}

} // verus!
