//! The journal's record format: one line per sequenced event,
//! `seq_id|ORDER_ADDED|id|symbol|qty`, and reading such lines back.
use vstd::prelude::*;

use crate::decimal::{decimal, is_digit, lemma_decimal, lemma_parse_decimal, parse_u64, parse_u64_spec, push_decimal};
use crate::event::{EngineEvent, EventModel, SequencedEvent, SequencedModel, event_views};
use crate::text::{
    chars_eq, chars_of, lemma_split_on_append, lemma_split_on_no_sep, lemma_split_on_push_sep, push_char,
    push_chars, split_chars, split_on, string_of, views,
};
use vstd::string::StringExecFns;

verus! {

/// The number of `|`-separated fields of a record.
pub const JOURNAL_LENGTH: usize = 5;

/// The event-type field of an added order.
pub open spec fn order_added_tag() -> Seq<char> {
    seq!['O', 'R', 'D', 'E', 'R', '_', 'A', 'D', 'D', 'E', 'D']
}

/// The record of `e`, without its line end.
pub open spec fn record_line(e: SequencedModel) -> Seq<char> {
    match e.event {
        EventModel::OrderAdded { id, symbol, qty } => decimal(e.seq_id as nat) + seq!['|'] + order_added_tag()
            + seq!['|'] + decimal(id as nat) + seq!['|'] + symbol + seq!['|'] + decimal(qty as nat),
    }
}

/// The record of `e`, with its line end, as the journal stores it.
pub open spec fn record_text(e: SequencedModel) -> Seq<char> {
    record_line(e).push('\n')
}

/// The journal text holding the records of `events`, in order.
pub open spec fn journal_text(events: Seq<SequencedModel>) -> Seq<char>
    decreases events.len(),
{
    if events.len() == 0 {
        Seq::<char>::empty()
    } else {
        journal_text(events.drop_last()) + record_text(events.last())
    }
}

/// Why a journal could not be read back or replayed.
#[derive(Debug, PartialEq, Eq)]
pub enum JournalError {
    FieldCount(usize),
    InvalidSeqId,
    InvalidOrderId,
    InvalidOrderQty,
    UnknownEventType(String),
    SequenceGap { expected: u64, got: u64 },
    SequenceOverflow,
}

/// What a journal error holds.
pub enum JournalErrorModel {
    FieldCount(usize),
    InvalidSeqId,
    InvalidOrderId,
    InvalidOrderQty,
    UnknownEventType(Seq<char>),
    SequenceGap { expected: u64, got: u64 },
    SequenceOverflow,
}

impl View for JournalError {
    type V = JournalErrorModel;

    open spec fn view(&self) -> JournalErrorModel {
        match self {
            JournalError::FieldCount(n) => JournalErrorModel::FieldCount(*n),
            JournalError::InvalidSeqId => JournalErrorModel::InvalidSeqId,
            JournalError::InvalidOrderId => JournalErrorModel::InvalidOrderId,
            JournalError::InvalidOrderQty => JournalErrorModel::InvalidOrderQty,
            JournalError::UnknownEventType(t) => JournalErrorModel::UnknownEventType(t@),
            JournalError::SequenceGap { expected, got } => JournalErrorModel::SequenceGap {
                expected: *expected,
                got: *got,
            },
            JournalError::SequenceOverflow => JournalErrorModel::SequenceOverflow,
        }
    }
}

/// The message that describes a journal error.
pub open spec fn journal_error_message(e: JournalErrorModel) -> Seq<char> {
    match e {
        JournalErrorModel::FieldCount(n) => "invalid journal record field count: "@ + decimal(n as nat),
        JournalErrorModel::InvalidSeqId => "invalid journal seq_id"@,
        JournalErrorModel::InvalidOrderId => "invalid order id"@,
        JournalErrorModel::InvalidOrderQty => "invalid order qty"@,
        JournalErrorModel::UnknownEventType(t) => "unknown journal event type: "@ + t,
        JournalErrorModel::SequenceGap { expected, got } => "journal sequence gap: expected "@ + decimal(
            expected as nat,
        ) + ", got "@ + decimal(got as nat),
        JournalErrorModel::SequenceOverflow => "journal sequence overflow"@,
    }
}

impl JournalError {
    /// The message that describes this error.
    pub fn message(&self) -> (s: String)
        ensures
            s@ == journal_error_message(self@),
    {
        match self {
            JournalError::FieldCount(n) => {
                let mut s = String::from_str("invalid journal record field count: ");
                push_decimal(&mut s, *n as u64);
                s
            },
            JournalError::InvalidSeqId => String::from_str("invalid journal seq_id"),
            JournalError::InvalidOrderId => String::from_str("invalid order id"),
            JournalError::InvalidOrderQty => String::from_str("invalid order qty"),
            JournalError::UnknownEventType(t) => {
                let mut s = String::from_str("unknown journal event type: ");
                s.append(t.as_str());
                s
            },
            JournalError::SequenceGap { expected, got } => {
                let mut s = String::from_str("journal sequence gap: expected ");
                push_decimal(&mut s, *expected);
                s.append(", got ");
                push_decimal(&mut s, *got);
                s
            },
            JournalError::SequenceOverflow => String::from_str("journal sequence overflow"),
        }
    }
}

/// What reading the record line `rec` gives: five `|`-separated fields,
/// the sequence number, the event type `ORDER_ADDED`, the order id, the
/// symbol and the quantity; the first field that fails names the error.
pub open spec fn decode_record_spec(rec: Seq<char>) -> Result<SequencedModel, JournalErrorModel> {
    let parts = split_on(rec, '|');
    if parts.len() != JOURNAL_LENGTH {
        Err(JournalErrorModel::FieldCount(parts.len() as usize))
    } else {
        match parse_u64_spec(parts[0]) {
            None => Err(JournalErrorModel::InvalidSeqId),
            Some(seq_id) => if parts[1] == order_added_tag() {
                match parse_u64_spec(parts[2]) {
                    None => Err(JournalErrorModel::InvalidOrderId),
                    Some(id) => match parse_u64_spec(parts[4]) {
                        None => Err(JournalErrorModel::InvalidOrderQty),
                        Some(qty) => Ok(
                            SequencedModel {
                                seq_id,
                                event: EventModel::OrderAdded { id, symbol: parts[3], qty },
                            },
                        ),
                    },
                }
            } else {
                Err(JournalErrorModel::UnknownEventType(parts[1]))
            },
        }
    }
}

/// A decoding result, seen through the views.
pub open spec fn decoded(r: Result<SequencedEvent, JournalError>) -> Result<SequencedModel, JournalErrorModel> {
    match r {
        Ok(e) => Ok(e@),
        Err(e) => Err(e@),
    }
}

/// The lines of a journal text: the pieces between line ends, less the
/// empty piece after a final line end.
pub open spec fn journal_lines(content: Seq<char>) -> Seq<Seq<char>> {
    let pieces = split_on(content, '\n');
    if pieces.last().len() == 0 {
        pieces.drop_last()
    } else {
        pieces
    }
}

/// What reading the record lines `lines` gives: their events in order, or
/// the error of the first line that fails.
pub open spec fn decode_lines(lines: Seq<Seq<char>>) -> Result<Seq<SequencedModel>, JournalErrorModel>
    decreases lines.len(),
{
    if lines.len() == 0 {
        Ok(Seq::<SequencedModel>::empty())
    } else {
        match decode_lines(lines.drop_last()) {
            Err(e) => Err(e),
            Ok(events) => match decode_record_spec(lines.last()) {
                Err(e) => Err(e),
                Ok(event) => Ok(events.push(event)),
            },
        }
    }
}

/// What reading the journal text `content` gives.
pub open spec fn decode_journal_spec(content: Seq<char>) -> Result<Seq<SequencedModel>, JournalErrorModel> {
    decode_lines(journal_lines(content))
}

/// A journal reading result, seen through the views.
pub open spec fn decoded_all(r: Result<Vec<SequencedEvent>, JournalError>) -> Result<
    Seq<SequencedModel>,
    JournalErrorModel,
> {
    match r {
        Ok(v) => Ok(event_views(v@)),
        Err(e) => Err(e@),
    }
}

/// The record of `sequenced_event`, with its line end.
pub fn encode_record(sequenced_event: &SequencedEvent) -> (r: String)
    ensures
        r@ == record_text(sequenced_event@),
{
    match sequenced_event.event() {
        EngineEvent::OrderAdded { id, symbol, qty } => {
            let mut s = String::new();
            push_decimal(&mut s, sequenced_event.seq_id());
            push_char(&mut s, '|');
            push_chars(&mut s, &['O', 'R', 'D', 'E', 'R', '_', 'A', 'D', 'D', 'E', 'D']);
            push_char(&mut s, '|');
            push_decimal(&mut s, *id);
            push_char(&mut s, '|');
            s.append(symbol.as_str());
            push_char(&mut s, '|');
            push_decimal(&mut s, *qty);
            push_char(&mut s, '\n');
            proof {
                let e = sequenced_event@;
                assert(s@ =~= record_text(e));
            }
            s
        },
    }
}

/// Reads one record line (without its line end).
fn decode_record_chars(rec: &[char]) -> (r: Result<SequencedEvent, JournalError>)
    ensures
        decoded(r) == decode_record_spec(rec@),
{
    let parts = split_chars(rec, '|');
    assert(parts@.len() == views(parts@).len());
    if parts.len() != JOURNAL_LENGTH {
        return Err(JournalError::FieldCount(parts.len()));
    }
    assert(views(parts@)[0] == parts@[0]@);
    assert(views(parts@)[1] == parts@[1]@);
    assert(views(parts@)[2] == parts@[2]@);
    assert(views(parts@)[3] == parts@[3]@);
    assert(views(parts@)[4] == parts@[4]@);
    let seq_id = match parse_u64(parts[0].as_slice()) {
        Some(s) => s,
        None => return Err(JournalError::InvalidSeqId),
    };
    if chars_eq(parts[1].as_slice(), &['O', 'R', 'D', 'E', 'R', '_', 'A', 'D', 'D', 'E', 'D']) {
        assert(parts@[1]@ =~= order_added_tag());
        let id = match parse_u64(parts[2].as_slice()) {
            Some(id) => id,
            None => return Err(JournalError::InvalidOrderId),
        };
        let symbol = string_of(parts[3].as_slice());
        let qty = match parse_u64(parts[4].as_slice()) {
            Some(q) => q,
            None => return Err(JournalError::InvalidOrderQty),
        };
        Ok(SequencedEvent::new(seq_id, EngineEvent::OrderAdded { id, symbol, qty }))
    } else {
        assert(parts@[1]@ != order_added_tag());
        Err(JournalError::UnknownEventType(string_of(parts[1].as_slice())))
    }
}

/// Reads one record line (without its line end).
pub fn decode_record(record: &str) -> (r: Result<SequencedEvent, JournalError>)
    ensures
        decoded(r) == decode_record_spec(record@),
{
    let chars = chars_of(record);
    decode_record_chars(chars.as_slice())
}

proof fn lemma_decode_lines_error_sticks(lines: Seq<Seq<char>>, k: int)
    requires
        0 <= k <= lines.len(),
        decode_lines(lines.take(k)) is Err,
    ensures
        decode_lines(lines) == decode_lines(lines.take(k)),
    decreases lines.len(),
{
    if k < lines.len() {
        assert(lines.drop_last().take(k) =~= lines.take(k));
        lemma_decode_lines_error_sticks(lines.drop_last(), k);
    } else {
        assert(lines.take(k) =~= lines);
    }
}

/// Reads the records of a journal text, one per line.
pub fn decode_journal(content: &str) -> (r: Result<Vec<SequencedEvent>, JournalError>)
    ensures
        decoded_all(r) == decode_journal_spec(content@),
{
    let chars = chars_of(content);
    let mut pieces = split_chars(chars.as_slice(), '\n');
    proof {
        crate::text::lemma_split_on_nonempty(content@, '\n');
    }
    let ghost lines = journal_lines(content@);
    let n = pieces.len();
    assert(views(pieces@)[n - 1] == pieces@[n - 1]@);
    if pieces[n - 1].len() == 0 {
        let ghost before = views(pieces@);
        pieces.pop();
        assert(views(pieces@) =~= before.drop_last());
    }
    assert(views(pieces@) == lines);
    let mut events: Vec<SequencedEvent> = Vec::new();
    assert(lines.take(0) =~= Seq::<Seq<char>>::empty());
    assert(event_views(events@) =~= Seq::<SequencedModel>::empty());
    for i in 0..pieces.len()
        invariant
            views(pieces@) == lines,
            lines == journal_lines(content@),
            decode_lines(lines.take(i as int)) == Ok::<Seq<SequencedModel>, JournalErrorModel>(event_views(events@)),
    {
        assert(lines[i as int] == pieces@[i as int]@);
        assert(lines.take(i + 1).drop_last() =~= lines.take(i as int));
        assert(lines.take(i + 1).last() == lines[i as int]);
        match decode_record_chars(pieces[i].as_slice()) {
            Ok(e) => {
                let ghost before = event_views(events@);
                events.push(e);
                assert(event_views(events@) =~= before.push(e@));
            },
            Err(e) => {
                proof {
                    assert(decode_lines(lines.take(i + 1)) == Err::<Seq<SequencedModel>, JournalErrorModel>(e@));
                    lemma_decode_lines_error_sticks(lines, i + 1);
                }
                return Err(e);
            },
        }
    }
    assert(lines.take(lines.len() as int) =~= lines);
    Ok(events)
}

proof fn lemma_decimal_lacks(n: nat, c: char)
    requires
        !is_digit(c),
    ensures
        !decimal(n).contains(c),
{
    lemma_decimal(n);
    if decimal(n).contains(c) {
        let i = choose|i: int| 0 <= i < decimal(n).len() && decimal(n)[i] == c;
        assert(is_digit(decimal(n)[i]));
    }
}

proof fn lemma_split_step(x: Seq<char>, y: Seq<char>, sep: char, pieces: Seq<Seq<char>>)
    requires
        split_on(x, sep) == pieces,
        pieces.len() >= 1,
        !y.contains(sep),
    ensures
        split_on(x.push(sep) + y, sep) == pieces.push(y),
{
    lemma_split_on_push_sep(x, sep);
    lemma_split_on_append(x.push(sep), y, sep);
    let r = pieces.push(Seq::<char>::empty());
    assert(Seq::<char>::empty() + y =~= y);
    assert(r.update(r.len() - 1, r.last() + y) =~= pieces.push(y));
}

/// Whether the symbol that the event of `e` names holds the character `c`.
pub open spec fn symbol_has(e: SequencedModel, c: char) -> bool {
    match e.event {
        EventModel::OrderAdded { symbol, .. } => symbol.contains(c),
    }
}

/// The fields of the record line of `e`.
proof fn lemma_record_fields(e: SequencedModel)
    requires
        !symbol_has(e, '|'),
    ensures
        match e.event {
            EventModel::OrderAdded { id, symbol, qty } => split_on(record_line(e), '|') == seq![
                decimal(e.seq_id as nat),
                order_added_tag(),
                decimal(id as nat),
                symbol,
                decimal(qty as nat),
            ],
        },
{
    match e.event {
        EventModel::OrderAdded { id, symbol, qty } => {
            let d1 = decimal(e.seq_id as nat);
            let t = order_added_tag();
            let d2 = decimal(id as nat);
            let d3 = decimal(qty as nat);
            lemma_decimal_lacks(e.seq_id as nat, '|');
            lemma_decimal_lacks(id as nat, '|');
            lemma_decimal_lacks(qty as nat, '|');
            assert(!t.contains('|')) by {
                if t.contains('|') {
                    let i = choose|i: int| 0 <= i < t.len() && t[i] == '|';
                    assert(t[i] != '|');
                }
            }
            lemma_split_on_no_sep(d1, '|');
            let p2 = d1.push('|') + t;
            lemma_split_step(d1, t, '|', seq![d1]);
            let p4 = p2.push('|') + d2;
            lemma_split_step(p2, d2, '|', seq![d1].push(t));
            let p6 = p4.push('|') + symbol;
            lemma_split_step(p4, symbol, '|', seq![d1].push(t).push(d2));
            let p8 = p6.push('|') + d3;
            lemma_split_step(p6, d3, '|', seq![d1].push(t).push(d2).push(symbol));
            assert(record_line(e) =~= p8);
            assert(seq![d1].push(t).push(d2).push(symbol).push(d3) =~= seq![d1, t, d2, symbol, d3]);
        },
    }
}

/// Reading back the record line of an event gives the event again,
/// whenever its symbol holds no `|`.
pub proof fn law_record_round_trip(e: SequencedModel)
    requires
        !symbol_has(e, '|'),
    ensures
        decode_record_spec(record_line(e)) == Ok::<SequencedModel, JournalErrorModel>(e),
{
    lemma_record_fields(e);
    match e.event {
        EventModel::OrderAdded { id, symbol, qty } => {
            lemma_parse_decimal(e.seq_id as nat, u64::MAX as nat);
            lemma_parse_decimal(id as nat, u64::MAX as nat);
            lemma_parse_decimal(qty as nat, u64::MAX as nat);
        },
    }
}

/// The record lines of `events`.
pub open spec fn record_lines(events: Seq<SequencedModel>) -> Seq<Seq<char>> {
    Seq::new(events.len(), |i: int| record_line(events[i]))
}

proof fn lemma_record_line_lacks_newline(e: SequencedModel)
    requires
        !symbol_has(e, '\n'),
    ensures
        !record_line(e).contains('\n'),
{
    match e.event {
        EventModel::OrderAdded { id, symbol, qty } => {
            lemma_decimal_lacks(e.seq_id as nat, '\n');
            lemma_decimal_lacks(id as nat, '\n');
            lemma_decimal_lacks(qty as nat, '\n');
            let l = record_line(e);
            if l.contains('\n') {
                let i = choose|i: int| 0 <= i < l.len() && l[i] == '\n';
                let d1 = decimal(e.seq_id as nat);
                let t = order_added_tag();
                let d2 = decimal(id as nat);
                let d3 = decimal(qty as nat);
                let a = d1.len();
                let b = a + 1 + t.len();
                let c = b + 1 + d2.len();
                let d = c + 1 + symbol.len();
                if i < a {
                    assert(l[i] == d1[i]);
                } else if i == a || i == b || i == c || i == d {
                    assert(l[i] == '|');
                } else if i < b {
                    assert(l[i] == t[i - a - 1]);
                } else if i < c {
                    assert(l[i] == d2[i - b - 1]);
                } else if i < d {
                    assert(l[i] == symbol[i - c - 1]);
                } else {
                    assert(l[i] == d3[i - d - 1]);
                }
            }
        },
    }
}

proof fn lemma_journal_pieces(events: Seq<SequencedModel>)
    requires
        forall|i: int| 0 <= i < events.len() ==> !symbol_has(#[trigger] events[i], '\n'),
    ensures
        split_on(journal_text(events), '\n') == record_lines(events).push(Seq::<char>::empty()),
    decreases events.len(),
{
    if events.len() == 0 {
        assert(journal_text(events) =~= Seq::<char>::empty());
        assert(record_lines(events).push(Seq::<char>::empty()) =~= seq![Seq::<char>::empty()]);
    } else {
        let pre = events.drop_last();
        let e = events.last();
        assert forall|i: int| 0 <= i < pre.len() implies !symbol_has(#[trigger] pre[i], '\n') by {
            assert(pre[i] == events[i]);
        }
        lemma_journal_pieces(pre);
        assert(!symbol_has(e, '\n')) by {
            assert(events[events.len() - 1] == e);
        }
        lemma_record_line_lacks_newline(e);
        let x = journal_text(pre);
        let line = record_line(e);
        lemma_split_on_append(x, line, '\n');
        let r = record_lines(pre).push(Seq::<char>::empty());
        assert(Seq::<char>::empty() + line =~= line);
        assert(r.update(r.len() - 1, r.last() + line) =~= record_lines(events));
        lemma_split_on_push_sep(x + line, '\n');
        assert(journal_text(events) =~= (x + line).push('\n'));
    }
}

proof fn lemma_decode_record_lines(events: Seq<SequencedModel>)
    requires
        forall|i: int| 0 <= i < events.len() ==> !symbol_has(#[trigger] events[i], '|'),
    ensures
        decode_lines(record_lines(events)) == Ok::<Seq<SequencedModel>, JournalErrorModel>(events),
    decreases events.len(),
{
    if events.len() == 0 {
        assert(record_lines(events) =~= Seq::<Seq<char>>::empty());
        assert(events =~= Seq::<SequencedModel>::empty());
    } else {
        let pre = events.drop_last();
        assert forall|i: int| 0 <= i < pre.len() implies !symbol_has(#[trigger] pre[i], '|') by {
            assert(pre[i] == events[i]);
        }
        lemma_decode_record_lines(pre);
        assert(record_lines(events).drop_last() =~= record_lines(pre));
        assert(record_lines(events).last() == record_line(events.last()));
        assert(!symbol_has(events.last(), '|')) by {
            assert(events[events.len() - 1] == events.last());
        }
        law_record_round_trip(events.last());
        assert(pre.push(events.last()) =~= events);
    }
}

/// Reading back a journal written record by record gives the events again,
/// in order, whenever no symbol holds a `|` or a line end.
pub proof fn law_journal_round_trip(events: Seq<SequencedModel>)
    requires
        forall|i: int| 0 <= i < events.len() ==> !symbol_has(#[trigger] events[i], '|'),
        forall|i: int| 0 <= i < events.len() ==> !symbol_has(#[trigger] events[i], '\n'),
    ensures
        decode_journal_spec(journal_text(events)) == Ok::<Seq<SequencedModel>, JournalErrorModel>(events),
{
    lemma_journal_pieces(events);
    let pieces = split_on(journal_text(events), '\n');
    assert(pieces.last() == Seq::<char>::empty());
    assert(pieces.drop_last() =~= record_lines(events));
    lemma_decode_record_lines(events);
}

} // verus!
