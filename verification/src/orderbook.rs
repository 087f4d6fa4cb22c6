//! Order books of the trading engine: orders kept in arrival order.
use vstd::prelude::*;

use crate::event::{EngineEvent, EventModel};
use crate::model::{clone_orders, order_views, Order, OrderModel};

verus! {

/// The orders after `event` is applied to `orders`.
pub open spec fn apply_event(orders: Seq<OrderModel>, event: EventModel) -> Seq<OrderModel> {
    match event {
        EventModel::OrderAdded { id, symbol, qty } => orders.push(OrderModel { id, symbol, qty }),
    }
}

/// A book that only collects the orders added to it.
#[derive(Debug)]
pub struct MiniOrderBook {
    orders: Vec<Order>,
}

impl View for MiniOrderBook {
    type V = Seq<OrderModel>;

    closed spec fn view(&self) -> Seq<OrderModel> {
        order_views(self.orders@)
    }
}

impl Default for MiniOrderBook {
    fn default() -> (b: Self)
        ensures
            b@ == Seq::<OrderModel>::empty(),
    {
        let b = Self { orders: Vec::new() };
        assert(b@ =~= Seq::<OrderModel>::empty());
        b
    }
}

impl MiniOrderBook {
    pub fn new() -> (b: Self)
        ensures
            b@ == Seq::<OrderModel>::empty(),
    {
        Self::default()
    }

    pub fn add(&mut self, order: Order)
        ensures
            final(self)@ == old(self)@.push(order@),
    {
        let ghost before = self@;
        self.orders.push(order);
        assert(self@ =~= before.push(order@));
    }

    /// Copies of the orders, in arrival order.
    pub fn snapshot(&self) -> (r: Vec<Order>)
        ensures
            order_views(r@) == self@,
    {
        clone_orders(&self.orders)
    }
}

/// A book built by applying engine events.
#[derive(Debug)]
pub struct OrderBook {
    orders: Vec<Order>,
}

impl View for OrderBook {
    type V = Seq<OrderModel>;

    closed spec fn view(&self) -> Seq<OrderModel> {
        order_views(self.orders@)
    }
}

impl Default for OrderBook {
    fn default() -> (b: Self)
        ensures
            b@ == Seq::<OrderModel>::empty(),
    {
        let b = Self { orders: Vec::new() };
        assert(b@ =~= Seq::<OrderModel>::empty());
        b
    }
}

impl OrderBook {
    pub fn new() -> (b: Self)
        ensures
            b@ == Seq::<OrderModel>::empty(),
    {
        Self::default()
    }

    /// Applies `event`: an added order joins the end of the book.
    pub fn apply(&mut self, event: &EngineEvent)
        ensures
            final(self)@ == apply_event(old(self)@, event@),
    {
        match event {
            EngineEvent::OrderAdded { id, symbol, qty } => {
                let order = Order::new(*id, symbol.clone(), *qty);
                let ghost before = self@;
                self.orders.push(order);
                assert(self@ =~= before.push(order@));
            },
        }
    }

    /// Copies of the orders, in arrival order.
    pub fn snapshot(&self) -> (r: Vec<Order>)
        ensures
            order_views(r@) == self@,
    {
        clone_orders(&self.orders)
    }

    /// A book holding `orders`.
    pub fn from_orders(orders: Vec<Order>) -> (b: Self)
        ensures
            b@ == order_views(orders@),
    {
        Self { orders }
    }
}

} // verus!
