//! Tradable instruments: a symbol, price and quantity steps, and a status.
use vstd::prelude::*;

verus! {

/// Whether an instrument can be traded.
#[derive(Debug, Clone, Copy, PartialEq, Eq, Structural)]
pub enum InstrumentStatus {
    Active,
    Halted,
}

/// The name of a status on the wire.
pub open spec fn status_text(status: InstrumentStatus) -> Seq<char> {
    match status {
        InstrumentStatus::Active => "ACTIVE"@,
        InstrumentStatus::Halted => "HALTED"@,
    }
}

impl InstrumentStatus {
    pub fn as_str(self) -> (r: &'static str)
        ensures
            r@ == status_text(self),
    {
        match self {
            InstrumentStatus::Active => "ACTIVE",
            InstrumentStatus::Halted => "HALTED",
        }
    }
}

/// What an instrument holds.
pub struct InstrumentModel {
    pub symbol: Seq<char>,
    pub tick_size: u64,
    pub lot_size: u64,
    pub status: InstrumentStatus,
}

#[derive(Debug, PartialEq, Eq)]
pub struct Instrument {
    symbol: String,
    tick_size: u64,
    lot_size: u64,
    status: InstrumentStatus,
}

impl View for Instrument {
    type V = InstrumentModel;

    closed spec fn view(&self) -> InstrumentModel {
        InstrumentModel {
            symbol: self.symbol@,
            tick_size: self.tick_size,
            lot_size: self.lot_size,
            status: self.status,
        }
    }
}

impl Clone for Instrument {
    fn clone(&self) -> (r: Self)
        ensures
            r@ == self@,
    {
        Instrument {
            symbol: self.symbol.clone(),
            tick_size: self.tick_size,
            lot_size: self.lot_size,
            status: self.status,
        }
    }
}

impl Instrument {
    pub fn new(symbol: &str, tick_size: u64, lot_size: u64, status: InstrumentStatus) -> (i: Self)
        ensures
            i@ == (InstrumentModel { symbol: symbol@, tick_size, lot_size, status }),
    {
        Self { symbol: symbol.to_owned(), tick_size, lot_size, status }
    }

    pub fn symbol(&self) -> (r: &str)
        ensures
            r@ == self@.symbol,
    {
        self.symbol.as_str()
    }

    /// The symbol, as an owned string.
    pub(crate) fn symbol_string(&self) -> (r: &String)
        ensures
            r@ == self@.symbol,
    {
        &self.symbol
    }

    pub fn tick_size(&self) -> (r: u64)
        ensures
            r == self@.tick_size,
    {
        self.tick_size
    }

    pub fn lot_size(&self) -> (r: u64)
        ensures
            r == self@.lot_size,
    {
        self.lot_size
    }

    pub fn status(&self) -> (r: InstrumentStatus)
        ensures
            r == self@.status,
    {
        self.status
    }
}

} // verus!
