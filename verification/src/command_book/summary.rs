//! Counts over the orders of a book.
use vstd::prelude::*;

verus! {

/// How many orders a book holds, on each side, and their total open quantity.
#[derive(Debug, PartialEq, Eq)]
pub struct OrderBookSummary {
    pub order_count: usize,
    pub buy_count: usize,
    pub sell_count: usize,
    pub total_quantity: u64,
}

} // verus!
