//! The order of the trading engine: an id, an instrument symbol and a
//! quantity.
use vstd::prelude::*;

verus! {

/// What an order holds.
pub struct OrderModel {
    pub id: u64,
    pub symbol: Seq<char>,
    pub qty: u64,
}

#[derive(Debug, PartialEq, Eq)]
pub struct Order {
    id: u64,
    symbol: String,
    qty: u64,
}

impl View for Order {
    type V = OrderModel;

    closed spec fn view(&self) -> OrderModel {
        OrderModel { id: self.id, symbol: self.symbol@, qty: self.qty }
    }
}

impl Clone for Order {
    fn clone(&self) -> (r: Self)
        ensures
            r@ == self@,
    {
        Order { id: self.id, symbol: self.symbol.clone(), qty: self.qty }
    }
}

/// The views of a sequence of orders.
pub open spec fn order_views(orders: Seq<Order>) -> Seq<OrderModel> {
    Seq::new(orders.len(), |i: int| orders[i]@)
}

impl Order {
    pub fn new(id: u64, symbol: String, qty: u64) -> (o: Self)
        ensures
            o@ == (OrderModel { id, symbol: symbol@, qty }),
    {
        Self { id, symbol, qty }
    }

    pub fn id(&self) -> (r: u64)
        ensures
            r == self@.id,
    {
        self.id
    }

    pub fn symbol(&self) -> (r: &str)
        ensures
            r@ == self@.symbol,
    {
        self.symbol.as_str()
    }

    pub fn qty(&self) -> (r: u64)
        ensures
            r == self@.qty,
    {
        self.qty
    }
}

/// Copies of `orders`, in the same order.
pub fn clone_orders(orders: &Vec<Order>) -> (r: Vec<Order>)
    ensures
        order_views(r@) == order_views(orders@),
{
    let mut r: Vec<Order> = Vec::new();
    for i in 0..orders.len()
        invariant
            order_views(r@) =~= order_views(orders@).take(i as int),
    {
        let o = orders[i].clone();
        let ghost before = order_views(r@);
        r.push(o);
        assert(order_views(r@) =~= before.push(o@));
    }
    assert(order_views(orders@).take(orders@.len() as int) =~= order_views(orders@));
    r
}

} // verus!
