//! The market state cache: the latest bar of each symbol, and nothing older.

use vstd::prelude::*;
use vstd::hash_map::StringHashMap;
use crate::types::{Bar, BarView};

verus! {

/// The bars behind a map of records.
pub open spec fn bar_views(bars: Map<Seq<char>, Bar>) -> Map<Seq<char>, BarView> {
    Map::new(|k: Seq<char>| bars.contains_key(k), |k: Seq<char>| bars[k]@)
}

/// Whether `bars` holds a bar of `symbol` dated exactly `date`.
pub open spec fn has_bar(bars: Map<Seq<char>, BarView>, symbol: Seq<char>, date: Seq<char>) -> bool {
    bars.contains_key(symbol) && bars[symbol].date == date
}

/// The latest bar of each symbol.
pub struct BarCache {
    latest: StringHashMap<Bar>,
}

impl View for BarCache {
    type V = Map<Seq<char>, BarView>;

    closed spec fn view(&self) -> Map<Seq<char>, BarView> {
        bar_views(self.latest@)
    }
}

impl BarCache {
    /// An empty cache.
    pub fn new() -> (cache: BarCache)
        ensures
            cache@ == Map::<Seq<char>, BarView>::empty(),
    {
        let cache = BarCache { latest: StringHashMap::new() };
        assert(cache@ =~= Map::<Seq<char>, BarView>::empty());
        cache
    }

    /// Replaces the cached bar of `bar.symbol`, whatever its date.
    pub fn update(&mut self, bar: Bar)
        ensures
            final(self)@ == old(self)@.insert(bar.symbol@, bar@),
    {
        let symbol = bar.symbol.clone();
        self.latest.insert(symbol, bar);
        assert(self@ =~= old(self)@.insert(bar.symbol@, bar@));
    }

    /// The cached bar of `symbol`, if one was ever seen.
    pub fn latest(&self, symbol: &str) -> (found: Option<&Bar>)
        ensures
            found is Some <==> self@.contains_key(symbol@),
            found is Some ==> found->0@ == self@[symbol@],
    {
        self.latest.get(symbol)
    }

    /// The cached bar of `symbol` if it is dated exactly `date`.
    pub fn bar_on(&self, symbol: &str, date: &String) -> (found: Option<&Bar>)
        ensures
            found is Some <==> has_bar(self@, symbol@, date@),
            found is Some ==> found->0@ == self@[symbol@],
    {
        match self.latest.get(symbol) {
            Some(bar) => if bar.date == *date { Some(bar) } else { None },
            None => None,
        }
    }
}

} // verus!
