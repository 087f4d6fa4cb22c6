//! A book service owned by one connection: adds orders to its book and
//! reports the book.
use vstd::prelude::*;

use crate::model::{order_views, Order, OrderModel};
use crate::orderbook::MiniOrderBook;

verus! {

/// The answer to an added order: its id.
#[derive(Debug, PartialEq, Eq)]
pub struct AddOrderResult {
    pub id: u64,
}

/// The orders of a book at one moment.
#[derive(Debug, PartialEq, Eq)]
pub struct BookSnapshot {
    pub orders: Vec<Order>,
}

#[derive(Debug)]
pub struct BookService {
    book: MiniOrderBook,
}

impl BookService {
    /// The orders of the service's book.
    pub closed spec fn orders(&self) -> Seq<OrderModel> {
        self.book@
    }

    pub fn new(book: MiniOrderBook) -> (s: Self)
        ensures
            s.orders() == book@,
    {
        Self { book }
    }

    /// Adds the order `id` for `qty` of `symbol`, and answers with its id.
    pub fn add_order(&mut self, id: u64, symbol: String, qty: u64) -> (r: AddOrderResult)
        ensures
            r.id == id,
            final(self).orders() == old(self).orders().push(OrderModel { id, symbol: symbol@, qty }),
    {
        let order = Order::new(id, symbol, qty);
        self.book.add(order);
        AddOrderResult { id }
    }

    /// The orders of the book, in arrival order.
    pub fn get_book(&self) -> (r: BookSnapshot)
        ensures
            order_views(r.orders@) == self.orders(),
    {
        BookSnapshot { orders: self.book.snapshot() }
    }
}

} // verus!
