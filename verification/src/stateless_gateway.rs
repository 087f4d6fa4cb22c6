//! Gateway handlers that keep no state: they answer each request from the
//! request alone.
use vstd::prelude::*;

use crate::gateway::MarketDataHandler;
use crate::protocol::{
    MarketDataRequest, MarketDataResponse, MarketDataResponseModel, OrderRequest, OrderResponse, OrderResponseModel,
};
use vstd::string::StringExecFns;

verus! {

/// Handles order requests without changing state.
pub trait OrderHandler {
    fn handle(&self, request: OrderRequest) -> OrderResponse;
}

/// Accepts every order and shows an empty book.
#[derive(Debug, Default)]
pub struct SimpleOrderHandler;

impl OrderHandler for SimpleOrderHandler {
    fn handle(&self, request: OrderRequest) -> (r: OrderResponse)
        ensures
            match request {
                OrderRequest::AddOrder { id, .. } => r@ == (OrderResponseModel::Accepted { id }),
                OrderRequest::Book => r@ == (OrderResponseModel::BookSnapshot { orders: Seq::empty() }),
            },
    {
        match request {
            OrderRequest::AddOrder { id, .. } => OrderResponse::Accepted { id },
            OrderRequest::Book => {
                let r = OrderResponse::BookSnapshot { orders: Vec::new() };
                assert(r@ == (OrderResponseModel::BookSnapshot { orders: Seq::empty() })) by {
                    assert(crate::protocol::order_view_models(Seq::empty()) =~= Seq::empty());
                }
                r
            },
        }
    }
}

/// Describes every requested symbol as an active instrument with unit
/// price and quantity steps.
#[derive(Debug, Default)]
pub struct InstrumentHandler;

impl MarketDataHandler for InstrumentHandler {
    fn handle(&self, request: MarketDataRequest) -> (r: MarketDataResponse)
        ensures
            match request {
                MarketDataRequest::Instrument { symbol } => r@ == (MarketDataResponseModel::InstrumentInfo {
                    symbol: symbol@,
                    tick_size: 1,
                    lot_size: 1,
                    status: "ACTIVE"@,
                }),
            },
    {
        match request {
            MarketDataRequest::Instrument { symbol } => MarketDataResponse::InstrumentInfo {
                symbol,
                tick_size: 1,
                lot_size: 1,
                status: String::from_str("ACTIVE"),
            },
        }
    }
}

} // verus!
