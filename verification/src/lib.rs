//! The core of a small trading system, verified with Verus: an order book
//! driven by text commands, an event-sourced order engine with its journal
//! format and replay, the order and market-data protocols, the instrument
//! catalog, and the gateways' request handlers.
use vstd::prelude::*;

pub mod catalog;
pub mod command_book;
pub mod decimal;
pub mod engine;
pub mod event;
pub mod gateway;
pub mod instrument;
pub mod journal;
pub mod limit_order;
pub mod model;
pub mod orderbook;
pub mod protocol;
pub mod replay;
pub mod service;
pub mod stateless_gateway;
pub mod symbol;
pub mod text;

verus! {
} // verus!

