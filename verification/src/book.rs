//! An order book held in memory.

use crate::accessor::Cell;
use crate::depth::{LevelSource, OrderFill};
use crate::error::ErrorKind;
use vstd::prelude::*;

verus! {

/// The orders that rest at one price.
#[derive(Debug, Clone, PartialEq, Eq)]
pub struct BookLevel {
    /// The price.
    pub price: u64,
    /// The orders at the price, oldest first.
    pub orders: Vec<OrderFill>,
}

/// The resting orders of one trading pair, price by price. Where a price
/// occurs more than once, its first entry counts.
#[derive(Debug, Clone, PartialEq, Eq)]
pub struct OrderBook {
    /// The prices that hold an entry.
    pub levels: Vec<BookLevel>,
}

/// The orders of the first entry for `price` among `levels`.
pub open spec fn find_level(levels: Seq<BookLevel>, price: u64) -> Option<Seq<OrderFill>>
    decreases levels.len(),
{
    if levels.len() == 0 {
        None
    } else if levels[0].price == price {
        Some(levels[0].orders@)
    } else {
        find_level(levels.skip(1), price)
    }
}

impl LevelSource for OrderBook {
    /// A price of the book holds the orders of its entry; a price without an
    /// entry holds nothing. No entry of a book is unreadable.
    open spec fn level(&self, price: u64) -> Cell<Seq<OrderFill>> {
        match find_level(self.levels@, price) {
            Some(fills) => Cell::Present(fills),
            None => Cell::Absent,
        }
    }

    fn orders_at(&self, price: u64) -> (r: Result<Option<Vec<OrderFill>>, ErrorKind>) {
        let mut i: usize = 0;
        assert(self.levels@.skip(0) =~= self.levels@);
        while i < self.levels.len()
            invariant
                i <= self.levels.len(),
                find_level(self.levels@, price) == find_level(self.levels@.skip(i as int), price),
            decreases self.levels.len() - i,
        {
            if self.levels[i].price == price {
                let fills = self.levels[i].orders.clone();
                assert(fills@ =~= self.levels[i as int].orders@);
                return Ok(Some(fills));
            }
            assert(self.levels@.skip(i as int).skip(1) =~= self.levels@.skip(i + 1));
            i = i + 1;
        }
        Ok(None)
    }
}

} // verus!
