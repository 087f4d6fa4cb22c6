//! The decisions of the engine loop: numbering each added order as an
//! event, applying events to the book, reporting the book, and recovering
//! from a journal. The loop itself, its channels and its journal file,
//! belong to the program that drives it.
use vstd::prelude::*;

use crate::event::{EngineEvent, EventModel, SequencedEvent, SequencedModel, Sequencer, event_views};
use crate::model::{order_views, Order, OrderModel};
use crate::orderbook::{apply_event, OrderBook};
use crate::journal::{
    decode_journal_spec, journal_text, law_journal_round_trip, symbol_has, JournalError, JournalErrorModel,
};
use crate::replay::{apply_events, law_replay_consecutive, law_replay_ok_applies_all, numbered_from, replay_journal, replay_outcome};

verus! {

/// The answer to an added order: its id and the number of its event.
#[derive(Debug, PartialEq, Eq)]
pub struct AddOrderResult {
    pub id: u64,
    pub seq_id: u64,
}

/// The orders of the book, as of the event numbered `as_of_seq`.
#[derive(Debug, PartialEq, Eq)]
pub struct BookSnapshot {
    pub as_of_seq: u64,
    pub orders: Vec<Order>,
}

/// The state rebuilt from a journal: the book and the number of the last
/// event applied to it.
#[derive(Debug)]
pub struct RecoveredEngineState {
    book: OrderBook,
    last_applied_seq: u64,
}

impl RecoveredEngineState {
    pub closed spec fn orders(&self) -> Seq<OrderModel> {
        self.book@
    }

    pub closed spec fn last_applied(&self) -> u64 {
        self.last_applied_seq
    }

    /// The number of the last event applied.
    pub fn last_applied_seq(&self) -> (r: u64)
        ensures
            r == self.last_applied(),
    {
        self.last_applied_seq
    }

    /// Copies of the recovered orders.
    pub fn snapshot(&self) -> (r: Vec<Order>)
        ensures
            order_views(r@) == self.orders(),
    {
        self.book.snapshot()
    }
}

/// Rebuilds the engine's state from the journaled `events`, read from the
/// start of the journal: replays them onto an empty book. Fails with the
/// replay's error.
pub fn recover_engine_state(events: &Vec<SequencedEvent>) -> (r: Result<RecoveredEngineState, JournalError>)
    ensures
        match r {
            Ok(state) => replay_outcome(event_views(events@), 0).1 == Ok::<u64, JournalErrorModel>(state.last_applied())
                && state.orders() == apply_events(Seq::<OrderModel>::empty(), event_views(events@)),
            Err(e) => replay_outcome(event_views(events@), 0).1 == Err::<u64, JournalErrorModel>(e@),
        },
{
    let mut book = OrderBook::new();
    let r = replay_journal(events, &mut book);
    match r {
        Ok(last_applied_seq) => {
            proof {
                law_replay_ok_applies_all(event_views(events@), 0);
                assert(event_views(events@).take(event_views(events@).len() as int) =~= event_views(events@));
            }
            Ok(RecoveredEngineState { book, last_applied_seq })
        },
        Err(e) => Err(e),
    }
}

/// Restarting from a journal that the engine wrote, its events numbered
/// 1, 2, ... by a fresh sequencer: reading the journal back gives the
/// events, and replaying them applies all of them and ends at the number
/// of the last, after which the resumed engine numbers on (see
/// `EngineState::resume`). Symbols must hold no `|` or line end.
pub proof fn law_recovery_round_trip(events: Seq<SequencedModel>)
    requires
        numbered_from(events, 1),
        events.len() < u64::MAX,
        forall|i: int| 0 <= i < events.len() ==> !symbol_has(#[trigger] events[i], '|'),
        forall|i: int| 0 <= i < events.len() ==> !symbol_has(#[trigger] events[i], '\n'),
    ensures
        decode_journal_spec(journal_text(events)) == Ok::<Seq<SequencedModel>, JournalErrorModel>(events),
        replay_outcome(events, 0) == (events.len(), Ok::<u64, JournalErrorModel>(events.len() as u64)),
{
    law_journal_round_trip(events);
    law_replay_consecutive(events, 0);
}

/// The engine's state: the book, the sequencer, and the number of the
/// last event applied to the book.
#[derive(Debug)]
pub struct EngineState {
    book: OrderBook,
    sequencer: Sequencer,
    last_applied_seq: u64,
}

impl EngineState {
    pub closed spec fn orders(&self) -> Seq<OrderModel> {
        self.book@
    }

    pub closed spec fn next_seq(&self) -> u64 {
        self.sequencer.next()
    }

    pub closed spec fn last_applied(&self) -> u64 {
        self.last_applied_seq
    }

    /// A fresh engine: an empty book, numbering from 1.
    pub fn new() -> (s: Self)
        ensures
            s.orders() == Seq::<OrderModel>::empty(),
            s.next_seq() == 1,
            s.last_applied() == 0,
    {
        Self { book: OrderBook::new(), sequencer: Sequencer::new(), last_applied_seq: 0 }
    }

    /// An engine that continues from a recovered state: its book, and
    /// numbering after its last applied event.
    pub fn resume(recovered: RecoveredEngineState) -> (s: Self)
        requires
            recovered.last_applied() < u64::MAX,
        ensures
            s.orders() == recovered.orders(),
            s.next_seq() == recovered.last_applied() + 1,
            s.last_applied() == recovered.last_applied(),
    {
        let RecoveredEngineState { book, last_applied_seq } = recovered;
        let sequencer = Sequencer::resume_after(last_applied_seq);
        Self { book, sequencer, last_applied_seq }
    }

    /// The number the next event will get.
    pub fn peek_next_seq(&self) -> (r: u64)
        ensures
            r == self.next_seq(),
    {
        self.sequencer.next_seq()
    }

    /// Turns an added order into the next numbered event. The event still
    /// has to be applied (after it is journaled).
    pub fn assign(&mut self, id: u64, symbol: String, qty: u64) -> (e: SequencedEvent)
        requires
            old(self).next_seq() < u64::MAX,
        ensures
            e@ == (SequencedModel {
                seq_id: old(self).next_seq(),
                event: EventModel::OrderAdded { id, symbol: symbol@, qty },
            }),
            final(self).next_seq() == old(self).next_seq() + 1,
            final(self).orders() == old(self).orders(),
            final(self).last_applied() == old(self).last_applied(),
    {
        let event = EngineEvent::OrderAdded { id, symbol, qty };
        self.sequencer.assign_sequence(event)
    }

    /// Applies a numbered event to the book, records its number as the last
    /// applied, and answers with the order's id and the event's number.
    pub fn apply_sequenced(&mut self, event: &SequencedEvent) -> (r: AddOrderResult)
        ensures
            final(self).orders() == apply_event(old(self).orders(), event@.event),
            final(self).last_applied() == event@.seq_id,
            final(self).next_seq() == old(self).next_seq(),
            r.seq_id == event@.seq_id,
            match event@.event {
                EventModel::OrderAdded { id, .. } => r.id == id,
            },
    {
        self.book.apply(event.event());
        self.last_applied_seq = event.seq_id();
        match event.event() {
            EngineEvent::OrderAdded { id, .. } => AddOrderResult { id: *id, seq_id: event.seq_id() },
        }
    }

    /// Numbers an added order as the next event and applies it at once.
    pub fn add_order(&mut self, id: u64, symbol: String, qty: u64) -> (r: AddOrderResult)
        requires
            old(self).next_seq() < u64::MAX,
        ensures
            r.id == id,
            r.seq_id == old(self).next_seq(),
            final(self).orders() == old(self).orders().push(OrderModel { id, symbol: symbol@, qty }),
            final(self).last_applied() == old(self).next_seq(),
            final(self).next_seq() == old(self).next_seq() + 1,
    {
        let e = self.assign(id, symbol, qty);
        self.apply_sequenced(&e)
    }

    /// The book's orders, as of the last applied event.
    pub fn get_book(&self) -> (r: BookSnapshot)
        ensures
            r.as_of_seq == self.last_applied(),
            order_views(r.orders@) == self.orders(),
    {
        BookSnapshot { as_of_seq: self.last_applied_seq, orders: self.book.snapshot() }
    }
}

} // verus!
