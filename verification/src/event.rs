//! Engine events, their sequence numbers, and the sequencer that assigns them.
use vstd::prelude::*;

verus! {

/// What happened in the engine.
#[derive(Debug, PartialEq, Eq)]
pub enum EngineEvent {
    OrderAdded { id: u64, symbol: String, qty: u64 },
}

/// What an event holds.
pub enum EventModel {
    OrderAdded { id: u64, symbol: Seq<char>, qty: u64 },
}

impl View for EngineEvent {
    type V = EventModel;

    open spec fn view(&self) -> EventModel {
        match self {
            EngineEvent::OrderAdded { id, symbol, qty } => EventModel::OrderAdded {
                id: *id,
                symbol: symbol@,
                qty: *qty,
            },
        }
    }
}

impl Clone for EngineEvent {
    fn clone(&self) -> (r: Self)
        ensures
            r@ == self@,
    {
        match self {
            EngineEvent::OrderAdded { id, symbol, qty } => EngineEvent::OrderAdded {
                id: *id,
                symbol: symbol.clone(),
                qty: *qty,
            },
        }
    }
}

/// An event together with its sequence number.
#[derive(Debug, PartialEq, Eq)]
pub struct SequencedEvent {
    seq_id: u64,
    event: EngineEvent,
}

/// What a sequenced event holds.
pub struct SequencedModel {
    pub seq_id: u64,
    pub event: EventModel,
}

impl View for SequencedEvent {
    type V = SequencedModel;

    closed spec fn view(&self) -> SequencedModel {
        SequencedModel { seq_id: self.seq_id, event: self.event@ }
    }
}

impl Clone for SequencedEvent {
    fn clone(&self) -> (r: Self)
        ensures
            r@ == self@,
    {
        SequencedEvent { seq_id: self.seq_id, event: self.event.clone() }
    }
}

/// The views of a sequence of sequenced events.
pub open spec fn event_views(events: Seq<SequencedEvent>) -> Seq<SequencedModel> {
    Seq::new(events.len(), |i: int| events[i]@)
}

impl SequencedEvent {
    pub fn new(seq_id: u64, event: EngineEvent) -> (e: Self)
        ensures
            e@ == (SequencedModel { seq_id, event: event@ }),
    {
        Self { seq_id, event }
    }

    pub fn seq_id(&self) -> (r: u64)
        ensures
            r == self@.seq_id,
    {
        self.seq_id
    }

    pub fn event(&self) -> (r: &EngineEvent)
        ensures
            r@ == self@.event,
    {
        &self.event
    }
}

/// Hands out consecutive sequence numbers, the first being 1.
#[derive(Debug)]
pub struct Sequencer {
    next_seq: u64,
}

impl Sequencer {
    /// The number the next event will get.
    pub closed spec fn next(&self) -> u64 {
        self.next_seq
    }

    pub fn new() -> (s: Self)
        ensures
            s.next() == 1,
    {
        Self { next_seq: 1 }
    }

    /// Gives `event` the next sequence number, and moves past it. The
    /// sequencer must not have handed out `u64::MAX` already.
    pub fn assign_sequence(&mut self, event: EngineEvent) -> (e: SequencedEvent)
        requires
            old(self).next() < u64::MAX,
        ensures
            e@ == (SequencedModel { seq_id: old(self).next(), event: event@ }),
            final(self).next() == old(self).next() + 1,
    {
        let seq_id = self.next_seq;
        self.next_seq = self.next_seq + 1;
        SequencedEvent::new(seq_id, event)
    }

    /// A sequencer that continues after `last_seq`.
    pub fn resume_after(last_seq: u64) -> (s: Self)
        requires
            last_seq < u64::MAX,
        ensures
            s.next() == last_seq + 1,
    {
        Self { next_seq: last_seq + 1 }
    }

    /// The number the next event will get.
    pub fn next_seq(&self) -> (r: u64)
        ensures
            r == self.next(),
    {
        self.next_seq
    }
}

impl Default for Sequencer {
    fn default() -> (s: Self)
        ensures
            s.next() == 1,
    {
        Self::new()
    }
}

} // verus!
