//! Request handlers of the gateways: market data answered from the
//! instrument catalog, and orders handled by a book service.
use vstd::prelude::*;

use std::sync::Arc;

use crate::catalog::InstrumentCatalog;
use crate::instrument::status_text;
use crate::model::OrderModel;
use crate::protocol::{
    order_views_of, MarketDataRequest, MarketDataResponse, MarketDataResponseModel,
    OrderRequest, OrderResponse, OrderResponseModel,
};
use crate::service::BookService;
use vstd::string::StringExecFns;

verus! {

/// Answers market-data requests.
pub trait MarketDataHandler {
    fn handle(&self, request: MarketDataRequest) -> MarketDataResponse;
}

/// Answers instrument requests from a shared catalog.
#[derive(Debug)]
pub struct InstrumentHandler {
    catalog: Arc<InstrumentCatalog>,
}

impl InstrumentHandler {
    /// The catalog the handler answers from.
    pub closed spec fn catalog(&self) -> InstrumentCatalog {
        *self.catalog
    }

    pub fn new(catalog: Arc<InstrumentCatalog>) -> (h: Self)
        ensures
            h.catalog() == *catalog,
    {
        Self { catalog }
    }
}

impl MarketDataHandler for InstrumentHandler {
    /// Answers with the instrument's symbol, steps and status, or with the
    /// error `instrument not found: <symbol>`.
    fn handle(&self, request: MarketDataRequest) -> (r: MarketDataResponse)
        ensures
            match request {
                MarketDataRequest::Instrument { symbol } => if self.catalog()@.contains_key(symbol@) {
                    r@ == (MarketDataResponseModel::InstrumentInfo {
                        symbol: self.catalog()@[symbol@].symbol,
                        tick_size: self.catalog()@[symbol@].tick_size,
                        lot_size: self.catalog()@[symbol@].lot_size,
                        status: status_text(self.catalog()@[symbol@].status),
                    })
                } else {
                    r@ == (MarketDataResponseModel::Error { message: "instrument not found: "@ + symbol@ })
                },
            },
    {
        match request {
            MarketDataRequest::Instrument { symbol } => match self.catalog.get(symbol.as_str()) {
                Some(instrument) => MarketDataResponse::InstrumentInfo {
                    symbol: instrument.symbol().to_owned(),
                    tick_size: instrument.tick_size(),
                    lot_size: instrument.lot_size(),
                    status: instrument.status().as_str().to_owned(),
                },
                None => {
                    let mut message = String::from_str("instrument not found: ");
                    message.append(symbol.as_str());
                    MarketDataResponse::Error { message }
                },
            },
        }
    }
}

/// Handles order requests, possibly changing state.
pub trait OrderHandler {
    fn handle(&mut self, request: OrderRequest) -> OrderResponse;
}

/// Handles order requests with a book service of its own.
#[derive(Debug)]
pub struct SimpleOrderHandler {
    service: BookService,
}

impl SimpleOrderHandler {
    /// The orders of the handler's book.
    pub closed spec fn orders(&self) -> Seq<OrderModel> {
        self.service.orders()
    }

    pub fn new(service: BookService) -> (h: Self)
        ensures
            h.orders() == service.orders(),
    {
        Self { service }
    }
}

impl OrderHandler for SimpleOrderHandler {
    /// Adds an order and accepts it by id, or shows the book's orders.
    fn handle(&mut self, request: OrderRequest) -> (r: OrderResponse)
        ensures
            match request {
                OrderRequest::AddOrder { id, symbol, qty } => r@ == (OrderResponseModel::Accepted { id })
                    && final(self).orders() == old(self).orders().push(OrderModel { id, symbol: symbol@, qty }),
                OrderRequest::Book => r@ == (OrderResponseModel::BookSnapshot { orders: old(self).orders() })
                    && final(self).orders() == old(self).orders(),
            },
    {
        match request {
            OrderRequest::AddOrder { id, symbol, qty } => {
                let result = self.service.add_order(id, symbol, qty);
                OrderResponse::Accepted { id: result.id }
            },
            OrderRequest::Book => {
                let snapshot = self.service.get_book();
                let orders = order_views_of(&snapshot.orders);
                OrderResponse::BookSnapshot { orders }
            },
        }
    }
}

/// A place for a handler that checks orders against trading rules; it
/// has no behaviour of its own.
#[derive(Debug, Default)]
pub struct TradingOrderHandler;

/// A place for a handler that checks orders against risk limits; it has
/// no behaviour of its own.
#[derive(Debug, Default)]
pub struct RiskCheckingHandler;

/// A place for a handler that matches orders; it has no behaviour of its
/// own.
#[derive(Debug, Default)]
pub struct MatchingHandler;

/// A place for a stand-in handler; it has no behaviour of its own.
#[derive(Debug, Default)]
pub struct MockOrderHandler;

} // verus!
