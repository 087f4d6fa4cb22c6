//! A priced order of the command order book.
use vstd::prelude::*;

use super::error::OrderError;
use super::side::Side;

verus! {

/// The largest bit pattern above the positive finite IEEE-754 binary64
/// values: that of positive infinity.
pub const POSITIVE_INFINITY_BITS: u64 = 0x7ff0_0000_0000_0000u64;

/// Whether `bits` is the IEEE-754 binary64 encoding of a positive, finite
/// number: sign bit clear, exponent not all ones, and not zero. NaNs,
/// infinities, zeros and negative numbers are all outside this range.
pub open spec fn is_positive_finite_price(bits: u64) -> bool {
    0 < bits && bits < POSITIVE_INFINITY_BITS
}

/// What `Order::new` gives: the first failed check, or the order.
pub open spec fn new_order(id: u32, side: Side, price: u64, quantity: u64) -> Result<OrderModel, OrderError> {
    if !is_positive_finite_price(price) {
        Err(OrderError::InvalidPrice)
    } else if quantity == 0 {
        Err(OrderError::InvalidQty)
    } else {
        Ok(OrderModel { id, side, price, quantity })
    }
}

/// What an order holds.
pub struct OrderModel {
    pub id: u32,
    pub side: Side,
    pub price: u64,
    pub quantity: u64,
}

/// An order: an id, a side, a price (held as its IEEE-754 binary64 bits)
/// and the quantity still open.
#[derive(Debug, PartialEq, Clone, Copy)]
pub struct Order {
    id: u32,
    side: Side,
    price: u64,
    quantity: u64,
}

impl View for Order {
    type V = OrderModel;

    closed spec fn view(&self) -> OrderModel {
        OrderModel { id: self.id, side: self.side, price: self.price, quantity: self.quantity }
    }
}

impl Order {
    /// Creates an order; the price is given by its IEEE-754 binary64 bits
    /// (`f64::to_bits`). Fails with `InvalidPrice` unless the price is
    /// positive and finite, then with `InvalidQty` if the quantity is zero.
    pub fn new(id: u32, side: Side, price_bits: u64, quantity: u64) -> (r: Result<Order, OrderError>)
        ensures
            match r {
                Ok(o) => new_order(id, side, price_bits, quantity) == Ok::<OrderModel, OrderError>(o@),
                Err(e) => new_order(id, side, price_bits, quantity) == Err::<OrderModel, OrderError>(e),
            },
    {
        if !(0 < price_bits && price_bits < POSITIVE_INFINITY_BITS) {
            return Err(OrderError::InvalidPrice);
        }
        if quantity <= 0 {
            return Err(OrderError::InvalidQty);
        }
        Ok(Order { id, side, price: price_bits, quantity })
    }

    pub fn id(&self) -> (r: u32)
        ensures
            r == self@.id,
    {
        self.id
    }

    pub fn side(&self) -> (r: Side)
        ensures
            r == self@.side,
    {
        self.side
    }

    /// The price, as its IEEE-754 binary64 bits (`f64::from_bits` gives
    /// the number back).
    pub fn price_bits(&self) -> (r: u64)
        ensures
            r == self@.price,
    {
        self.price
    }

    pub fn quantity(&self) -> (r: u64)
        ensures
            r == self@.quantity,
    {
        self.quantity
    }

    pub fn is_buy(&self) -> (b: bool)
        ensures
            b == (self@.side == Side::Buy),
    {
        self.side.is_buy()
    }

    pub fn is_sell(&self) -> (b: bool)
        ensures
            b == (self@.side == Side::Sell),
    {
        self.side.is_sell()
    }

    /// Takes `amount` off the open quantity and returns what remains.
    /// Fails, changing nothing, with `ZeroReduceAmount` for a zero amount
    /// and with `ReduceAmountExceedsRemaining` for one above the quantity.
    pub fn reduce(&mut self, amount: u64) -> (r: Result<u64, OrderError>)
        ensures
            amount == 0 ==> r == Err::<u64, OrderError>(OrderError::ZeroReduceAmount) && final(self)@ == old(self)@,
            amount > 0 && amount > old(self)@.quantity ==> r == Err::<u64, OrderError>(OrderError::ReduceAmountExceedsRemaining)
                && final(self)@ == old(self)@,
            amount > 0 && amount <= old(self)@.quantity ==> r == Ok::<u64, OrderError>((old(self)@.quantity - amount) as u64)
                && final(self)@ == (OrderModel { quantity: (old(self)@.quantity - amount) as u64, ..old(self)@ }),
    {
        if amount == 0 {
            return Err(OrderError::ZeroReduceAmount);
        }
        if amount > self.quantity {
            Err(OrderError::ReduceAmountExceedsRemaining)
        } else {
            self.quantity -= amount;
            Ok(self.quantity)
        }
    }

    /// Whether nothing of the order is left open.
    pub fn is_filled(&self) -> (b: bool)
        ensures
            b == (self@.quantity == 0),
    {
        self.quantity == 0
    }
}

} // verus!
