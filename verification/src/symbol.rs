//! Symbols, and instruments that pair a symbol with signed price ticks and
//! lot sizes.
use vstd::prelude::*;

verus! {

/// The name of a tradable instrument.
#[derive(Debug, PartialEq, Eq, Hash)]
pub struct Symbol(String);

impl Clone for Symbol {
    fn clone(&self) -> (r: Self)
        ensures
            r@ == self@,
    {
        Symbol(self.0.clone())
    }
}

impl View for Symbol {
    type V = Seq<char>;

    closed spec fn view(&self) -> Seq<char> {
        self.0@
    }
}

impl Symbol {
    pub fn new(v: &str) -> (s: Self)
        ensures
            s@ == v@,
    {
        Self(v.to_owned())
    }

    pub fn as_str(&self) -> (r: &str)
        ensures
            r@ == self@,
    {
        self.0.as_str()
    }
}

/// What an instrument holds.
pub struct InstrumentModel {
    pub symbol: Seq<char>,
    pub tick_size: i64,
    pub lot_size: u64,
}

/// An instrument: its symbol, its smallest price step (`tick_size`) and
/// its smallest quantity step (`lot_size`).
#[derive(Debug, PartialEq, Eq, Hash)]
pub struct Instrument {
    symbol: Symbol,
    tick_size: i64,
    lot_size: u64,
}

impl View for Instrument {
    type V = InstrumentModel;

    closed spec fn view(&self) -> InstrumentModel {
        InstrumentModel { symbol: self.symbol@, tick_size: self.tick_size, lot_size: self.lot_size }
    }
}

impl Clone for Instrument {
    fn clone(&self) -> (r: Self)
        ensures
            r@ == self@,
    {
        Instrument { symbol: self.symbol.clone(), tick_size: self.tick_size, lot_size: self.lot_size }
    }
}

impl Instrument {
    pub fn new(symbol: Symbol, tick_size: i64, lot_size: u64) -> (i: Self)
        ensures
            i@ == (InstrumentModel { symbol: symbol@, tick_size, lot_size }),
    {
        Self { symbol, tick_size, lot_size }
    }

    pub fn symbol(&self) -> (r: &Symbol)
        ensures
            r@ == self@.symbol,
    {
        &self.symbol
    }

    pub fn tick_size(&self) -> (r: i64)
        ensures
            r == self@.tick_size,
    {
        self.tick_size
    }

    pub fn lot_size(&self) -> (r: u64)
        ensures
            r == self@.lot_size,
    {
        self.lot_size
    }
}

} // verus!
