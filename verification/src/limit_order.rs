//! The domain model of an exchange order: ids, side, type, a price in
//! ticks, the original quantity and the quantity filled.
#![allow(dead_code)]
use vstd::prelude::*;

verus! {

/// The exchange's own id of an order.
pub type OrderId = u64;

/// The client's id of an order.
pub type ClientOrderId = u64;

#[derive(Debug, Clone, Copy, PartialEq, Eq)]
pub enum Side {
    Buy,
    Sell,
}

#[derive(Debug, Clone, Copy, PartialEq, Eq)]
pub enum OrderType {
    Limit,
    Market,
}

#[derive(Debug, Clone, Copy)]
pub struct Order {
    id: OrderId,
    client_id: ClientOrderId,
    side: Side,
    order_type: OrderType,
    price: i64,
    quantity: u64,
    filled: u64,
}

} // verus!
