//! Replaying journaled events onto an order book, checking that their
//! sequence numbers follow one another without gaps.
use vstd::prelude::*;

use crate::event::{SequencedEvent, SequencedModel, event_views};
use crate::journal::{JournalError, JournalErrorModel};
use crate::model::OrderModel;
use crate::orderbook::{apply_event, OrderBook};

verus! {

/// The orders after `events` are applied to `orders`, in order.
pub open spec fn apply_events(orders: Seq<OrderModel>, events: Seq<SequencedModel>) -> Seq<OrderModel>
    decreases events.len(),
{
    if events.len() == 0 {
        orders
    } else {
        apply_event(apply_events(orders, events.drop_last()), events.last().event)
    }
}

/// Replaying `events` when the next one must be numbered `expected`: how
/// many events are applied, and the outcome, which is the number of the
/// last event applied, or the gap found, or the overflow of the numbering.
pub open spec fn replay_from(events: Seq<SequencedModel>, expected: u64) -> (nat, Result<u64, JournalErrorModel>)
    decreases events.len(),
{
    if events.len() == 0 {
        (0, Ok((expected - 1) as u64))
    } else if events[0].seq_id != expected {
        (0, Err(JournalErrorModel::SequenceGap { expected, got: events[0].seq_id }))
    } else if expected == u64::MAX {
        (1, Err(JournalErrorModel::SequenceOverflow))
    } else {
        let (k, outcome) = replay_from(events.drop_first(), (expected + 1) as u64);
        (k + 1, outcome)
    }
}

/// Replaying `events` after the event numbered `last_applied_seq`.
pub open spec fn replay_outcome(events: Seq<SequencedModel>, last_applied_seq: u64) -> (nat, Result<u64, JournalErrorModel>) {
    if last_applied_seq == u64::MAX {
        (0, Err(JournalErrorModel::SequenceOverflow))
    } else {
        replay_from(events, (last_applied_seq + 1) as u64)
    }
}

/// Whether `events` are numbered consecutively, the first being `first`.
pub open spec fn numbered_from(events: Seq<SequencedModel>, first: int) -> bool {
    forall|i: int| 0 <= i < events.len() ==> #[trigger] events[i].seq_id == first + i
}

proof fn lemma_replay_from_consecutive(events: Seq<SequencedModel>, expected: u64)
    requires
        expected >= 1,
        numbered_from(events, expected as int),
        expected + events.len() <= u64::MAX,
    ensures
        replay_from(events, expected) == (events.len(), Ok::<u64, JournalErrorModel>((expected - 1 + events.len()) as u64)),
    decreases events.len(),
{
    if events.len() > 0 {
        assert(events[0].seq_id == expected);
        let rest = events.drop_first();
        assert forall|i: int| 0 <= i < rest.len() implies #[trigger] rest[i].seq_id == expected + 1 + i by {
            assert(rest[i] == events[i + 1]);
        }
        lemma_replay_from_consecutive(rest, (expected + 1) as u64);
    }
}

/// Replaying events numbered consecutively after `last_applied_seq`
/// applies all of them and ends at the number of the last, as long as the
/// numbering stays below `u64::MAX`.
pub proof fn law_replay_consecutive(events: Seq<SequencedModel>, last_applied_seq: u64)
    requires
        numbered_from(events, last_applied_seq + 1),
        last_applied_seq + events.len() < u64::MAX,
    ensures
        replay_outcome(events, last_applied_seq) == (
            events.len(),
            Ok::<u64, JournalErrorModel>((last_applied_seq + events.len()) as u64),
        ),
{
    lemma_replay_from_consecutive(events, (last_applied_seq + 1) as u64);
}

/// Applying one more event to a replayed book is replaying one more event.
pub proof fn law_apply_extends_replay(orders: Seq<OrderModel>, events: Seq<SequencedModel>, event: SequencedModel)
    ensures
        apply_events(orders, events.push(event)) == apply_event(apply_events(orders, events), event.event),
{
    assert(events.push(event).drop_last() =~= events);
}

/// Replaying a journal in two parts, the second after the last number of
/// the first, applies what replaying it whole applies.
pub proof fn law_replay_in_parts(orders: Seq<OrderModel>, first: Seq<SequencedModel>, second: Seq<SequencedModel>)
    ensures
        apply_events(apply_events(orders, first), second) == apply_events(orders, first + second),
    decreases second.len(),
{
    if second.len() == 0 {
        assert(first + second =~= first);
    } else {
        law_replay_in_parts(orders, first, second.drop_last());
        assert((first + second).drop_last() =~= first + second.drop_last());
        assert((first + second).last() == second.last());
    }
}

proof fn lemma_replay_from_ok_applies_all(events: Seq<SequencedModel>, expected: u64)
    requires
        replay_from_is_ok(events, expected),
    ensures
        replay_from(events, expected).0 == events.len(),
    decreases events.len(),
{
    if events.len() > 0 {
        lemma_replay_from_ok_applies_all(events.drop_first(), (expected + 1) as u64);
    }
}

spec fn replay_from_is_ok(events: Seq<SequencedModel>, expected: u64) -> bool {
    replay_from(events, expected).1 is Ok
}

/// When a replay succeeds, it applies every event.
pub proof fn law_replay_ok_applies_all(events: Seq<SequencedModel>, last_applied_seq: u64)
    requires
        replay_outcome(events, last_applied_seq).1 is Ok,
    ensures
        replay_outcome(events, last_applied_seq).0 == events.len(),
{
    if last_applied_seq < u64::MAX {
        lemma_replay_from_ok_applies_all(events, (last_applied_seq + 1) as u64);
    }
}

proof fn lemma_replay_from_stops_at_first_mismatch(events: Seq<SequencedModel>, expected: u64)
    requires
        expected >= 1,
    ensures
        replay_from(events, expected).0 <= events.len(),
        forall|i: int|
            0 <= i < replay_from(events, expected).0 ==> #[trigger] events[i].seq_id == expected + i,
        replay_from(events, expected).1 matches Ok(s) ==> replay_from(events, expected).0 == events.len()
            && s == expected - 1 + events.len(),
        replay_from(events, expected).1 matches Err(JournalErrorModel::SequenceGap { expected: e, got }) ==> {
            let k = replay_from(events, expected).0 as int;
            &&& k < events.len()
            &&& e == expected + k
            &&& got == events[k].seq_id
            &&& got != e
        },
        replay_from(events, expected).1 matches Err(JournalErrorModel::SequenceOverflow) ==> replay_from(
            events,
            expected,
        ).0 >= 1 && expected + replay_from(events, expected).0 - 1 == u64::MAX,
        replay_from(events, expected).1 is Ok || replay_from(events, expected).1 matches Err(
            JournalErrorModel::SequenceGap { .. },
        ) || replay_from(events, expected).1 matches Err(JournalErrorModel::SequenceOverflow),
    decreases events.len(),
{
    if events.len() > 0 && events[0].seq_id == expected && expected < u64::MAX {
        let rest = events.drop_first();
        lemma_replay_from_stops_at_first_mismatch(rest, (expected + 1) as u64);
        let k = replay_from(rest, (expected + 1) as u64).0;
        assert forall|i: int| 0 <= i < k + 1 implies #[trigger] events[i].seq_id == expected + i by {
            if i > 0 {
                assert(events[i] == rest[i - 1]);
            }
        }
        if replay_from(rest, (expected + 1) as u64).1 is Err {
            if k < rest.len() {
                assert(events[(k + 1) as int] == rest[k as int]);
            }
        }
    }
}

/// Replay applies events only while each is numbered exactly as the next
/// one expected: the events it applies are numbered `last_applied_seq + 1`,
/// `last_applied_seq + 2`, and so on. It stops at the first event numbered
/// otherwise, lower as well as higher, reporting a gap with the number it
/// expected and the one it got, without applying that event; it reports an
/// overflow only once the numbering has reached `u64::MAX`; and when it
/// succeeds, it has applied every event and returns the number of the last
/// (or `last_applied_seq` when there are none).
pub proof fn law_replay_applies_only_expected_numbers(events: Seq<SequencedModel>, last_applied_seq: u64)
    ensures
        replay_outcome(events, last_applied_seq).0 <= events.len(),
        numbered_from(
            events.take(replay_outcome(events, last_applied_seq).0 as int),
            last_applied_seq + 1,
        ),
        replay_outcome(events, last_applied_seq).1 matches Ok(s) ==> replay_outcome(events, last_applied_seq).0
            == events.len() && s == last_applied_seq + events.len(),
        replay_outcome(events, last_applied_seq).1 matches Err(JournalErrorModel::SequenceGap { expected, got })
            ==> {
            let k = replay_outcome(events, last_applied_seq).0 as int;
            &&& k < events.len()
            &&& expected == last_applied_seq + 1 + k
            &&& got == events[k].seq_id
            &&& got != expected
        },
        replay_outcome(events, last_applied_seq).1 matches Err(JournalErrorModel::SequenceOverflow) ==> last_applied_seq
            + replay_outcome(events, last_applied_seq).0 == u64::MAX,
        replay_outcome(events, last_applied_seq).1 is Ok || replay_outcome(events, last_applied_seq).1 matches Err(
            JournalErrorModel::SequenceGap { .. },
        ) || replay_outcome(events, last_applied_seq).1 matches Err(JournalErrorModel::SequenceOverflow),
{
    if last_applied_seq < u64::MAX {
        lemma_replay_from_stops_at_first_mismatch(events, (last_applied_seq + 1) as u64);
        let k = replay_outcome(events, last_applied_seq).0 as int;
        assert forall|i: int| 0 <= i < events.take(k).len() implies #[trigger] events.take(k)[i].seq_id
            == last_applied_seq + 1 + i by {
            assert(events.take(k)[i] == events[i]);
        }
    } else {
        assert(events.take(0).len() == 0);
    }
}

/// A replay result, seen through the views.
pub open spec fn replayed(r: Result<u64, JournalError>) -> Result<u64, JournalErrorModel> {
    match r {
        Ok(s) => Ok(s),
        Err(e) => Err(e@),
    }
}

/// Replays `events` onto `book`, the first being expected to follow
/// `last_applied_seq`: each event whose number is the next one expected is
/// applied, in order. Returns the number of the last event applied (or
/// `last_applied_seq` when there is none), or the first gap in the
/// numbering, or the overflow of the numbering; events before a gap stay
/// applied.
pub fn replay_journal_from(events: &Vec<SequencedEvent>, last_applied_seq: u64, book: &mut OrderBook) -> (r:
    Result<u64, JournalError>)
    ensures
        replay_outcome(event_views(events@), last_applied_seq).0 <= events@.len(),
        final(book)@ == apply_events(
            old(book)@,
            event_views(events@).take(replay_outcome(event_views(events@), last_applied_seq).0 as int),
        ),
        replayed(r) == replay_outcome(event_views(events@), last_applied_seq).1,
{
    let ghost evs = event_views(events@);
    let ghost start = book@;
    if last_applied_seq == u64::MAX {
        assert(evs.take(0) =~= Seq::<SequencedModel>::empty());
        return Err(JournalError::SequenceOverflow);
    }
    let mut expected: u64 = last_applied_seq + 1;
    let mut current_seq: u64 = last_applied_seq;
    assert(evs.skip(0) =~= evs);
    assert(evs.take(0) =~= Seq::<SequencedModel>::empty());
    for i in 0..events.len()
        invariant
            evs == event_views(events@),
            expected as int == last_applied_seq + 1 + i,
            current_seq as int == expected - 1,
            replay_outcome(evs, last_applied_seq).0 == replay_from(evs.skip(i as int), expected).0 + i,
            replay_outcome(evs, last_applied_seq).1 == replay_from(evs.skip(i as int), expected).1,
            book@ == apply_events(start, evs.take(i as int)),
            start == old(book)@,
            last_applied_seq < u64::MAX,
    {
        let ev = &events[i];
        assert(evs[i as int] == ev@);
        assert(evs.skip(i as int)[0] == ev@);
        assert(evs.take(i + 1).drop_last() =~= evs.take(i as int));
        assert(evs.take(i + 1).last() == ev@);
        if ev.seq_id() != expected {
            return Err(JournalError::SequenceGap { expected, got: ev.seq_id() });
        }
        book.apply(ev.event());
        current_seq = ev.seq_id();
        if expected == u64::MAX {
            return Err(JournalError::SequenceOverflow);
        }
        assert(evs.skip(i as int).drop_first() =~= evs.skip(i + 1));
        expected = expected + 1;
    }
    assert(evs.take(evs.len() as int) =~= evs);
    Ok(current_seq)
}

/// Replays `events` onto `book` from the start of the journal: the first
/// event must be numbered 1.
pub fn replay_journal(events: &Vec<SequencedEvent>, book: &mut OrderBook) -> (r: Result<u64, JournalError>)
    ensures
        replay_outcome(event_views(events@), 0).0 <= events@.len(),
        final(book)@ == apply_events(
            old(book)@,
            event_views(events@).take(replay_outcome(event_views(events@), 0).0 as int),
        ),
        replayed(r) == replay_outcome(event_views(events@), 0).1,
{
    replay_journal_from(events, 0, book)
}

} // verus!
