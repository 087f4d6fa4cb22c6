use trading_sys::engine::{recover_engine_state, EngineState};
use trading_sys::event::{EngineEvent, SequencedEvent, Sequencer};
use trading_sys::journal::{decode_journal, decode_record, encode_record, JournalError};
use trading_sys::orderbook::OrderBook;
use trading_sys::replay::{replay_journal, replay_journal_from};

fn event(id: u64) -> EngineEvent {
    EngineEvent::OrderAdded {
        id,
        symbol: "BTCUSDT".to_string(),
        qty: 10,
    }
}

fn added(seq: u64, id: u64, symbol: &str, qty: u64) -> SequencedEvent {
    SequencedEvent::new(seq, EngineEvent::OrderAdded { id, symbol: symbol.to_string(), qty })
}

#[test]
fn sequence_starts_at_one() {
    let mut sequencer = Sequencer::new();

    let first = sequencer.assign_sequence(event(1));

    assert_eq!(first.seq_id(), 1);
}

#[test]
fn sequence_is_monotonic() {
    let mut sequencer = Sequencer::new();

    let first = sequencer.assign_sequence(event(1));

    let second = sequencer.assign_sequence(event(2));

    assert_eq!(first.seq_id(), 1);

    assert_eq!(second.seq_id(), 2);
}

#[test]
fn resumed_sequencer_continues() {
    let mut sequencer = Sequencer::resume_after(41);
    assert_eq!(sequencer.assign_sequence(event(1)).seq_id(), 42);
    assert_eq!(Sequencer::default().next_seq(), 1);
}

#[test]
fn decode_record_restores_event() {
    let event = decode_record("7|ORDER_ADDED|100|BTCUSDT|10").unwrap();

    assert_eq!(event.seq_id(), 7);

    assert_eq!(
        event.event(),
        &EngineEvent::OrderAdded {
            id: 100,
            symbol: "BTCUSDT".to_string(),
            qty: 10,
        }
    );
}

#[test]
fn append_writes_events_in_order() {
    let first = added(1, 1, "BTCUSDT", 10);
    let second = added(2, 2, "ETHUSDT", 20);
    let content = encode_record(&first) + &encode_record(&second);
    assert_eq!(content, "1|ORDER_ADDED|1|BTCUSDT|10\n2|ORDER_ADDED|2|ETHUSDT|20\n");
}

#[test]
fn decode_record_errors() {
    assert_eq!(decode_record("1|ORDER_ADDED|1|X"), Err(JournalError::FieldCount(4)));
    assert_eq!(decode_record("x|ORDER_ADDED|1|X|1"), Err(JournalError::InvalidSeqId));
    assert_eq!(decode_record("1|ORDER_ADDED|y|X|1"), Err(JournalError::InvalidOrderId));
    assert_eq!(decode_record("1|ORDER_ADDED|1|X|z"), Err(JournalError::InvalidOrderQty));
    assert_eq!(decode_record("1|ORDER_GONE|1|X|1"), Err(JournalError::UnknownEventType("ORDER_GONE".to_string())));
    assert_eq!(
        JournalError::UnknownEventType("ORDER_GONE".to_string()).message(),
        "unknown journal event type: ORDER_GONE"
    );
    assert_eq!(JournalError::FieldCount(4).message(), "invalid journal record field count: 4");
    assert_eq!(
        JournalError::SequenceGap { expected: 3, got: 5 }.message(),
        "journal sequence gap: expected 3, got 5"
    );
    assert_eq!(JournalError::SequenceOverflow.message(), "journal sequence overflow");
    assert_eq!(JournalError::InvalidSeqId.message(), "invalid journal seq_id");
}

#[test]
fn journal_round_trip() {
    let events = vec![added(1, 1, "BTCUSDT", 10), added(2, 2, "ETHUSDT", 20), added(3, 3, "", 0)];
    let mut content = String::new();
    for e in &events {
        content.push_str(&encode_record(e));
    }
    assert_eq!(decode_journal(&content), Ok(events));
    assert_eq!(decode_journal(""), Ok(Vec::new()));
    assert_eq!(decode_journal("1|ORDER_ADDED|1|X|1\nbad"), Err(JournalError::FieldCount(1)));
}

#[test]
fn replay_restores_events_in_sequence() {
    let content = encode_record(&added(1, 1, "BTCUSDT", 10)) + &encode_record(&added(2, 2, "ETHUSDT", 20));
    let events = decode_journal(&content).unwrap();
    let mut book = OrderBook::new();
    let last_seq = replay_journal(&events, &mut book).unwrap();
    let ids: Vec<u64> = book.snapshot().iter().map(|o| o.id()).collect();

    assert_eq!(ids, vec![1, 2]);

    assert_eq!(last_seq, 2);
}

#[test]
fn replay_reports_gap_after_applying_prefix() {
    let events = vec![added(1, 1, "A", 1), added(3, 3, "C", 3)];
    let mut book = OrderBook::new();
    assert_eq!(replay_journal(&events, &mut book), Err(JournalError::SequenceGap { expected: 2, got: 3 }));
    assert_eq!(book.snapshot().len(), 1);
    let mut book2 = OrderBook::new();
    assert_eq!(replay_journal_from(&Vec::new(), 5, &mut book2), Ok(5));
    assert_eq!(
        replay_journal_from(&vec![added(u64::MAX, 1, "A", 1)], u64::MAX - 1, &mut book2),
        Err(JournalError::SequenceOverflow)
    );
    assert_eq!(book2.snapshot().len(), 1);
    assert_eq!(replay_journal_from(&Vec::new(), u64::MAX, &mut book2), Err(JournalError::SequenceOverflow));
}

#[test]
fn tail_replay_continues_after_snapshot_sequence() {
    let tail = vec![added(3, 3, "SOLUSDT", 30)];
    let mut book = OrderBook::new();
    let mut ids = Vec::new();
    let last_seq = replay_journal_from(&tail, 2, &mut book).unwrap();
    for o in book.snapshot() {
        ids.push(o.id());
    }

    assert_eq!(ids, vec![3]);
    assert_eq!(last_seq, 3);
}

#[test]
fn recovery_restores_old_state() {
    let events = decode_journal(&encode_record(&added(1, 1, "BTCUSDT", 10))).unwrap();

    let recovered = recover_engine_state(&events).unwrap();

    assert_eq!(recovered.last_applied_seq(), 1);
    assert_eq!(recovered.snapshot().len(), 1);
}

#[test]
fn engine_continues_sequence_after_recovery() {
    let content = encode_record(&added(1, 1, "BTCUSDT", 10)) + &encode_record(&added(2, 2, "ETHUSDT", 20));
    let recovered = recover_engine_state(&decode_journal(&content).unwrap()).unwrap();
    let mut engine = EngineState::resume(recovered);

    let add_result = engine.add_order(3, "SOLUSDT".to_string(), 30);

    assert_eq!(add_result.seq_id, 3);

    let snapshot = engine.get_book();

    assert_eq!(snapshot.as_of_seq, 3);
    assert_eq!(snapshot.orders.len(), 3);
}

#[test]
fn engine_loop_book_snapshot_reports_last_applied_event_seq() {
    let mut engine = EngineState::new();

    engine.add_order(1, "BTCUSDT".to_string(), 10);

    let first = engine.get_book();

    assert_eq!(first.as_of_seq, 1);

    engine.add_order(2, "ETHUSDT".to_string(), 20);

    let second = engine.get_book();

    assert_eq!(second.as_of_seq, 2);

    assert_eq!(second.orders.len(), 2);
}

#[test]
fn engine_assign_then_apply() {
    let mut engine = EngineState::new();
    let e = engine.assign(5, "BTCUSDT".to_string(), 1);
    assert_eq!(e.seq_id(), 1);
    assert_eq!(engine.get_book().as_of_seq, 0);
    let r = engine.apply_sequenced(&e);
    assert_eq!((r.id, r.seq_id), (5, 1));
    assert_eq!(engine.peek_next_seq(), 2);
    assert_eq!(engine.get_book().orders[0].symbol(), "BTCUSDT");
}

#[test]
fn replay_in_two_parts_matches_whole() {
    let events = vec![added(1, 1, "A", 1), added(2, 2, "B", 2), added(3, 3, "C", 3)];
    let mut whole = OrderBook::new();
    assert_eq!(replay_journal(&events, &mut whole), Ok(3));
    let mut parts = OrderBook::new();
    assert_eq!(replay_journal(&events[..2].to_vec(), &mut parts), Ok(2));
    assert_eq!(replay_journal_from(&events[2..].to_vec(), 2, &mut parts), Ok(3));
    assert_eq!(parts.snapshot(), whole.snapshot());
}
