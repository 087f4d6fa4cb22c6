use std::sync::Arc;

use trading_sys::catalog::InstrumentCatalog;
use trading_sys::gateway::{InstrumentHandler, MarketDataHandler};
use trading_sys::instrument::{Instrument, InstrumentStatus};
use trading_sys::protocol::{MarketDataRequest, MarketDataResponse};
use trading_sys::stateless_gateway;
use trading_sys::symbol::{self, Symbol};

#[test]
fn query_existing_instrument() {
    let catalog = Arc::new(InstrumentCatalog::new(vec![Instrument::new(
        "BTCUSDT",
        1,
        1,
        InstrumentStatus::Active,
    )]));

    let handler = InstrumentHandler::new(catalog);

    let response = handler.handle(MarketDataRequest::Instrument {
        symbol: "BTCUSDT".to_string(),
    });

    assert_eq!(
        response,
        MarketDataResponse::InstrumentInfo {
            symbol: "BTCUSDT".to_string(),
            tick_size: 1,
            lot_size: 1,
            status: "ACTIVE".to_string(),
        }
    );
}

#[test]
fn query_unknown_instrument() {
    let catalog = Arc::new(InstrumentCatalog::new(Vec::new()));

    let handler = InstrumentHandler::new(catalog);

    let response = handler.handle(MarketDataRequest::Instrument {
        symbol: "UNKNOWN".to_string(),
    });

    assert_eq!(
        response,
        MarketDataResponse::Error {
            message: "instrument not found: UNKNOWN".to_string(),
        }
    );
}

#[test]
fn find_instrument_by_symbol() {
    let catalog = InstrumentCatalog::new(vec![Instrument::new(
        "BTCUSDT",
        1,
        1,
        InstrumentStatus::Active,
    )]);

    let instrument = catalog.get("BTCUSDT").unwrap();

    assert_eq!(instrument.symbol(), "BTCUSDT");
    assert_eq!(instrument.tick_size(), 1);
    assert_eq!(instrument.lot_size(), 1);
    assert_eq!(instrument.status(), InstrumentStatus::Active);
}

#[test]
fn unknown_instrument_returns_none() {
    let catalog = InstrumentCatalog::new(Vec::new());

    assert!(catalog.get("UNKNOWN").is_none());
}

#[test]
fn catalog_keeps_last_of_a_symbol() {
    let catalog = InstrumentCatalog::new(vec![
        Instrument::new("BTCUSDT", 1, 1, InstrumentStatus::Active),
        Instrument::new("ETHUSDT", 2, 3, InstrumentStatus::Active),
        Instrument::new("BTCUSDT", 5, 10, InstrumentStatus::Halted),
    ]);
    assert_eq!(catalog.len(), 2);
    assert!(!catalog.is_empty());
    let btc = catalog.get("BTCUSDT").unwrap();
    assert_eq!((btc.tick_size(), btc.lot_size(), btc.status()), (5, 10, InstrumentStatus::Halted));
    assert_eq!(catalog.get("ETHUSDT").unwrap().lot_size(), 3);
    assert!(InstrumentCatalog::new(Vec::new()).is_empty());
}

#[test]
fn halted_instrument_reports_status() {
    let catalog = Arc::new(InstrumentCatalog::new(vec![Instrument::new("SOLUSDT", 7, 2, InstrumentStatus::Halted)]));
    let handler = InstrumentHandler::new(catalog);
    let response = handler.handle(MarketDataRequest::Instrument { symbol: "SOLUSDT".to_string() });
    assert_eq!(
        response,
        MarketDataResponse::InstrumentInfo {
            symbol: "SOLUSDT".to_string(),
            tick_size: 7,
            lot_size: 2,
            status: "HALTED".to_string(),
        }
    );
    assert_eq!(InstrumentStatus::Active.as_str(), "ACTIVE");
}

#[test]
fn stateless_instrument_handler_describes_any_symbol() {
    let response = stateless_gateway::InstrumentHandler.handle(MarketDataRequest::Instrument { symbol: "ANY".to_string() });
    assert_eq!(
        response,
        MarketDataResponse::InstrumentInfo {
            symbol: "ANY".to_string(),
            tick_size: 1,
            lot_size: 1,
            status: "ACTIVE".to_string(),
        }
    );
}

#[test]
fn symbol_instrument_accessors() {
    let i = symbol::Instrument::new(Symbol::new("BTCUSDT"), -2, 5);
    assert_eq!(i.symbol().as_str(), "BTCUSDT");
    assert_eq!(i.tick_size(), -2);
    assert_eq!(i.lot_size(), 5);
    assert_eq!(i.clone(), i);
}
