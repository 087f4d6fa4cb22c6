//! The errors of the command order book, each with the message that
//! describes it.
use vstd::prelude::*;

use crate::decimal::{decimal, push_decimal};
use vstd::string::StringExecFns;

verus! {

/// Why an order could not be created or reduced.
#[derive(Debug, Clone, Copy, PartialEq, Eq, Structural)]
pub enum OrderError {
    InvalidPrice,
    InvalidQty,
    ReduceAmountExceedsRemaining,
    ZeroReduceAmount,
}

/// Why the order book refused an operation.
#[derive(Debug, Clone, Copy, PartialEq, Eq, Structural)]
pub enum OrderBookError {
    DuplicateId(u32),
    NotFound(u32),
    OrderError(OrderError),
}

/// Why the engine could not execute a command.
#[derive(Debug, Clone, Copy, PartialEq, Eq, Structural)]
pub enum ExecErr {
    OrderBook(OrderBookError),
}

/// Why a command text could not be parsed.
#[derive(Debug, Clone, Copy, PartialEq, Eq, Structural)]
pub enum ParseError {
    InvalidLength,
    NoneHead,
    SideText,
    IdText,
    PriceText,
    QtyText,
    BuildOrderFailed(OrderError),
    UnknownCommand,
}

/// The message that describes an [`OrderError`].
pub open spec fn order_error_message(e: OrderError) -> Seq<char> {
    match e {
        OrderError::InvalidPrice => "price must be positive and finite"@,
        OrderError::InvalidQty => "quantity must be positive and finite"@,
        OrderError::ReduceAmountExceedsRemaining => "reduce amount exceeds remaining quantity"@,
        OrderError::ZeroReduceAmount => "reduce amount must be greater than zero"@,
    }
}

/// The message that describes an [`OrderBookError`].
pub open spec fn order_book_error_message(e: OrderBookError) -> Seq<char> {
    match e {
        OrderBookError::DuplicateId(id) => "duplicated id: "@ + decimal(id as nat),
        OrderBookError::NotFound(id) => "order not found: "@ + decimal(id as nat),
        OrderBookError::OrderError(inner) => "Order Error: "@ + order_error_message(inner),
    }
}

/// The message that describes a [`ParseError`].
pub open spec fn parse_error_message(e: ParseError) -> Seq<char> {
    match e {
        ParseError::InvalidLength => "invalid length of command"@,
        ParseError::NoneHead => "head command not found"@,
        ParseError::SideText => "order side text is invalid"@,
        ParseError::IdText => "order id text is invalid"@,
        ParseError::PriceText => "order price text is invalid"@,
        ParseError::QtyText => "order quantity text is invalid"@,
        ParseError::BuildOrderFailed(inner) => "build order failed: "@ + order_error_message(inner),
        ParseError::UnknownCommand => "unknown command"@,
    }
}

impl OrderError {
    /// The message that describes this error.
    pub fn message(&self) -> (s: String)
        ensures
            s@ == order_error_message(*self),
    {
        match self {
            OrderError::InvalidPrice => String::from_str("price must be positive and finite"),
            OrderError::InvalidQty => String::from_str("quantity must be positive and finite"),
            OrderError::ReduceAmountExceedsRemaining => String::from_str(
                "reduce amount exceeds remaining quantity",
            ),
            OrderError::ZeroReduceAmount => String::from_str(
                "reduce amount must be greater than zero",
            ),
        }
    }
}

impl OrderBookError {
    /// The message that describes this error.
    pub fn message(&self) -> (s: String)
        ensures
            s@ == order_book_error_message(*self),
    {
        match self {
            OrderBookError::DuplicateId(id) => {
                let mut s = String::from_str("duplicated id: ");
                push_decimal(&mut s, *id as u64);
                s
            },
            OrderBookError::NotFound(id) => {
                let mut s = String::from_str("order not found: ");
                push_decimal(&mut s, *id as u64);
                s
            },
            OrderBookError::OrderError(inner) => {
                let mut s = String::from_str("Order Error: ");
                let m = inner.message();
                s.append(m.as_str());
                s
            },
        }
    }
}

impl ExecErr {
    /// The message that describes this error: that of the order book error
    /// it carries.
    pub fn message(&self) -> (s: String)
        ensures
            s@ == (match *self {
                ExecErr::OrderBook(inner) => order_book_error_message(inner),
            }),
    {
        match self {
            ExecErr::OrderBook(inner) => inner.message(),
        }
    }
}

impl ParseError {
    /// The message that describes this error.
    pub fn message(&self) -> (s: String)
        ensures
            s@ == parse_error_message(*self),
    {
        match self {
            ParseError::InvalidLength => String::from_str("invalid length of command"),
            ParseError::NoneHead => String::from_str("head command not found"),
            ParseError::SideText => String::from_str("order side text is invalid"),
            ParseError::IdText => String::from_str("order id text is invalid"),
            ParseError::PriceText => String::from_str("order price text is invalid"),
            ParseError::QtyText => String::from_str("order quantity text is invalid"),
            ParseError::BuildOrderFailed(inner) => {
                let mut s = String::from_str("build order failed: ");
                let m = inner.message();
                s.append(m.as_str());
                s
            },
            ParseError::UnknownCommand => String::from_str("unknown command"),
        }
    }
}

impl From<OrderBookError> for ExecErr {
    fn from(e: OrderBookError) -> (r: ExecErr) {
        ExecErr::OrderBook(e)
    }
}

impl vstd::std_specs::convert::FromSpecImpl<OrderBookError> for ExecErr {
    open spec fn obeys_from_spec() -> bool {
        true
    }

    open spec fn from_spec(e: OrderBookError) -> ExecErr {
        ExecErr::OrderBook(e)
    }
}

impl From<OrderError> for ParseError {
    fn from(e: OrderError) -> (r: ParseError) {
        ParseError::BuildOrderFailed(e)
    }
}

impl vstd::std_specs::convert::FromSpecImpl<OrderError> for ParseError {
    open spec fn obeys_from_spec() -> bool {
        true
    }

    open spec fn from_spec(e: OrderError) -> ParseError {
        ParseError::BuildOrderFailed(e)
    }
}

} // verus!
