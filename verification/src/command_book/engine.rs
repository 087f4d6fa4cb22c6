//! The engine: executes commands against the order book it owns.
use vstd::prelude::*;

use super::command::Command;
use super::error::{ExecErr, OrderBookError};
use super::order::{Order, OrderModel};
use super::orderbook::{has_id, ids_unique, index_of, reduce_outcome, summary_of, total_quantity, OrderBook};
use super::summary::OrderBookSummary;

verus! {

/// What a command that succeeded gives back.
#[derive(Debug)]
pub enum ExecResult {
    AddSucc { id: u32 },
    FindSucc(Order),
    ReduceSucc { id: u32, remaining: u64 },
    RemoveSucc { id: u32 },
    SummarySucc(OrderBookSummary),
}

/// The engine, owner of the order book.
pub struct Engine {
    orderbook: OrderBook,
}

impl Engine {
    /// The orders of the book the engine owns.
    pub closed spec fn book(&self) -> Seq<OrderModel> {
        self.orderbook@
    }

    pub fn new(ob: OrderBook) -> (e: Self)
        ensures
            e.book() == ob@,
    {
        Self { orderbook: ob }
    }

    /// Whether a `Summary` command can be executed: the total open
    /// quantity of the book fits in a `u64`.
    pub fn can_summarize(&self) -> (b: bool)
        ensures
            b == (total_quantity(self.book()) <= u64::MAX),
    {
        self.orderbook.total_quantity_fits()
    }

    /// Executes `cmd`:
    /// - `Add` adds the order and answers `AddSucc` with its id;
    /// - `Get` answers `FindSucc` with a copy of the order, or fails with `NotFound`;
    /// - `Cancel` removes the order and answers `RemoveSucc`;
    /// - `Reduce` reduces the order and answers `ReduceSucc` with what remains;
    /// - `Summary` answers `SummarySucc` with the book's summary.
    /// Every failure is the book's error, and leaves the book unchanged.
    pub fn execute(&mut self, cmd: Command) -> (r: Result<ExecResult, ExecErr>)
        requires
            cmd is Summary ==> total_quantity(old(self).book()) <= u64::MAX,
        ensures
            ids_unique(final(self).book()),
            match cmd {
                Command::Add(o) => if has_id(old(self).book(), o@.id) {
                    r == Err::<ExecResult, ExecErr>(ExecErr::OrderBook(OrderBookError::DuplicateId(o@.id)))
                        && final(self).book() == old(self).book()
                } else {
                    (r matches Ok(ExecResult::AddSucc { id }) && id == o@.id)
                        && final(self).book() == old(self).book().push(o@)
                },
                Command::Get(id) => final(self).book() == old(self).book() && if has_id(old(self).book(), id) {
                    (r matches Ok(ExecResult::FindSucc(o)) && o@ == old(self).book()[index_of(old(self).book(), id)])
                } else {
                    r == Err::<ExecResult, ExecErr>(ExecErr::OrderBook(OrderBookError::NotFound(id)))
                },
                Command::Cancel(id) => if has_id(old(self).book(), id) {
                    (r matches Ok(ExecResult::RemoveSucc { id: rid }) && rid == id)
                        && final(self).book() == old(self).book().remove(index_of(old(self).book(), id))
                } else {
                    r == Err::<ExecResult, ExecErr>(ExecErr::OrderBook(OrderBookError::NotFound(id)))
                        && final(self).book() == old(self).book()
                },
                Command::Reduce { id, amount } => {
                    let (after, outcome) = reduce_outcome(old(self).book(), id, amount);
                    &&& final(self).book() == after
                    &&& match outcome {
                        Ok(remaining) => (r matches Ok(ExecResult::ReduceSucc { id: rid, remaining: rem })
                            && rid == id && rem == remaining),
                        Err(e) => r == Err::<ExecResult, ExecErr>(ExecErr::OrderBook(e)),
                    }
                },
                Command::Summary => final(self).book() == old(self).book()
                    && (r matches Ok(ExecResult::SummarySucc(s)) && s == summary_of(old(self).book())),
            },
    {
        match cmd {
            Command::Add(o) => {
                let id = o.id();
                match self.orderbook.add(o) {
                    Ok(()) => Ok(ExecResult::AddSucc { id }),
                    Err(e) => Err(ExecErr::OrderBook(e)),
                }
            },
            Command::Get(id) => {
                match self.orderbook.get(id) {
                    Some(order) => Ok(ExecResult::FindSucc(*order)),
                    None => Err(ExecErr::OrderBook(OrderBookError::NotFound(id))),
                }
            },
            Command::Cancel(id) => {
                match self.orderbook.cancel(id) {
                    Ok(()) => Ok(ExecResult::RemoveSucc { id }),
                    Err(e) => Err(ExecErr::OrderBook(e)),
                }
            },
            Command::Reduce { id, amount } => {
                match self.orderbook.reduce(id, amount) {
                    Ok(remaining) => Ok(ExecResult::ReduceSucc { id, remaining }),
                    Err(e) => Err(ExecErr::OrderBook(e)),
                }
            },
            Command::Summary => {
                match self.orderbook.summary() {
                    Ok(s) => Ok(ExecResult::SummarySucc(s)),
                    Err(e) => Err(ExecErr::OrderBook(e)),
                }
            },
        }
    }
}

} // verus!
