//! Parsing command texts such as ` add ,1,buy,88.8,100` or `get, 1`:
//! comma-separated fields, each trimmed, the first naming the command in
//! any ASCII case.
use vstd::prelude::*;

use super::command::{Command, CommandModel};
use super::error::ParseError;
use super::order::{is_positive_finite_price, new_order, Order, OrderModel};
use super::side::{side_of_text, Side};
use crate::decimal::{parse_u32, parse_u32_spec, parse_u64, parse_u64_spec};
use crate::text::{
    ascii_upper_text, ascii_uppercase, chars_eq, chars_of, split_chars, split_on, string_of, trim,
    trim_chars, views,
};

verus! {

pub const ADD_FIELDS: usize = 5;

pub const GET_FIELDS: usize = 2;

pub const CANCEL_FIELDS: usize = 2;

pub const REDUCE_FIELDS: usize = 3;

pub const SUMMARY_FIELDS: usize = 1;

/// A parse result, seen through the views of the commands.
pub open spec fn parsed(r: Result<Command, ParseError>) -> Result<CommandModel, ParseError> {
    match r {
        Ok(c) => Ok(c@),
        Err(e) => Err(e),
    }
}

/// Each piece trimmed.
pub open spec fn trim_each(pieces: Seq<Seq<char>>) -> Seq<Seq<char>> {
    Seq::new(pieces.len(), |i: int| trim(pieces[i]))
}

/// The trimmed comma-separated fields of a command text.
pub open spec fn command_fields(input: Seq<char>) -> Seq<Seq<char>> {
    trim_each(split_on(input, ','))
}

/// How an `ADD` command ends once its id and side are read: the price
/// (as parsed, IEEE-754 bits), then the quantity, then the order itself.
pub open spec fn add_tail(id: u32, side: Side, price: Option<u64>, qty_text: Seq<char>) -> Result<
    CommandModel,
    ParseError,
> {
    match price {
        None => Err(ParseError::PriceText),
        Some(bits) => match parse_u64_spec(qty_text) {
            None => Err(ParseError::QtyText),
            Some(qty) => match new_order(id, side, bits, qty) {
                Err(e) => Err(ParseError::BuildOrderFailed(e)),
                Ok(o) => Ok(CommandModel::Add(o)),
            },
        },
    }
}

/// Whether `r` is what parsing the fields `body` of an `ADD` command gives,
/// where `price` parses the price field: the field count, then the id, the
/// side, and, for the price, some value that `price` returns on the trimmed
/// price field.
pub open spec fn add_parsed<F: Fn(&str) -> Option<u64>>(
    body: Seq<Seq<char>>,
    price: F,
    r: Result<CommandModel, ParseError>,
) -> bool {
    if body.len() != ADD_FIELDS {
        r == Err::<CommandModel, ParseError>(ParseError::InvalidLength)
    } else {
        match parse_u32_spec(trim(body[1])) {
            None => r == Err::<CommandModel, ParseError>(ParseError::IdText),
            Some(id) => match side_of_text(trim(body[2])) {
                Err(e) => r == Err::<CommandModel, ParseError>(e),
                Ok(side) => exists|t: &str, p: Option<u64>|
                    t@ == trim(body[3]) && #[trigger] call_ensures(price, (t,), p) && r == add_tail(
                        id,
                        side,
                        p,
                        trim(body[4]),
                    ),
            },
        }
    }
}

/// An `ADD` parse that succeeds gives the order the fields name: the id
/// read from the trimmed second field, the side named by the trimmed third
/// field, a price that `price` returns on the trimmed fourth field, and the
/// quantity read from the trimmed fifth field; the price is positive and
/// finite and the quantity is not zero.
pub proof fn law_parsed_add_follows_fields<F: Fn(&str) -> Option<u64>>(
    body: Seq<Seq<char>>,
    price: F,
    o: OrderModel,
)
    requires
        add_parsed(body, price, Ok(CommandModel::Add(o))),
    ensures
        body.len() == 5,
        parse_u32_spec(trim(body[1])) == Some(o.id),
        side_of_text(trim(body[2])) == Ok::<Side, ParseError>(o.side),
        exists|t: &str| t@ == trim(body[3]) && #[trigger] call_ensures(price, (t,), Some(o.price)),
        parse_u64_spec(trim(body[4])) == Some(o.quantity),
        is_positive_finite_price(o.price),
        o.quantity > 0,
{
    let id = parse_u32_spec(trim(body[1]))->0;
    let side = side_of_text(trim(body[2]))->Ok_0;
    let (t, p) = choose|t: &str, p: Option<u64>|
        t@ == trim(body[3]) && #[trigger] call_ensures(price, (t,), p) && Ok::<CommandModel, ParseError>(
            CommandModel::Add(o),
        ) == add_tail(id, side, p, trim(body[4]));
    assert(p == Some(o.price));
    assert(call_ensures(price, (t,), Some(o.price)));
}

/// A command text that parses to an order is an `ADD` command (its first
/// field, upper-cased, is `ADD`) of five fields, and the order is what
/// those fields name (see `law_parsed_add_follows_fields`).
pub proof fn law_parsed_command_add<F: Fn(&str) -> Option<u64>>(input: Seq<char>, price: F, o: OrderModel)
    requires
        command_parsed(input, price, Ok(CommandModel::Add(o))),
    ensures
        input.len() > 0,
        ascii_upper_text(command_fields(input)[0]) == seq!['A', 'D', 'D'],
        command_fields(input).len() == 5,
        parse_u32_spec(trim(command_fields(input)[1])) == Some(o.id),
        side_of_text(trim(command_fields(input)[2])) == Ok::<Side, ParseError>(o.side),
        exists|t: &str| t@ == trim(command_fields(input)[3]) && #[trigger] call_ensures(price, (t,), Some(o.price)),
        parse_u64_spec(trim(command_fields(input)[4])) == Some(o.quantity),
{
    law_parsed_add_follows_fields(command_fields(input), price, o);
}

/// What parsing the fields of a `GET` command gives.
pub open spec fn get_parsed(body: Seq<Seq<char>>) -> Result<CommandModel, ParseError> {
    if body.len() != GET_FIELDS {
        Err(ParseError::InvalidLength)
    } else {
        match parse_u32_spec(trim(body[1])) {
            None => Err(ParseError::IdText),
            Some(id) => Ok(CommandModel::Get(id)),
        }
    }
}

/// What parsing the fields of a `CANCEL` command gives.
pub open spec fn cancel_parsed(body: Seq<Seq<char>>) -> Result<CommandModel, ParseError> {
    if body.len() != CANCEL_FIELDS {
        Err(ParseError::InvalidLength)
    } else {
        match parse_u32_spec(trim(body[1])) {
            None => Err(ParseError::IdText),
            Some(id) => Ok(CommandModel::Cancel(id)),
        }
    }
}

/// What parsing the fields of a `REDUCE` command gives.
pub open spec fn reduce_parsed(body: Seq<Seq<char>>) -> Result<CommandModel, ParseError> {
    if body.len() != REDUCE_FIELDS {
        Err(ParseError::InvalidLength)
    } else {
        match parse_u32_spec(trim(body[1])) {
            None => Err(ParseError::IdText),
            Some(id) => match parse_u64_spec(trim(body[2])) {
                None => Err(ParseError::QtyText),
                Some(amount) => Ok(CommandModel::Reduce { id, amount }),
            },
        }
    }
}

/// What parsing the fields of a `SUMMARY` command gives.
pub open spec fn summary_parsed(body: Seq<Seq<char>>) -> Result<CommandModel, ParseError> {
    if body.len() != SUMMARY_FIELDS {
        Err(ParseError::InvalidLength)
    } else {
        Ok(CommandModel::Summary)
    }
}

/// Whether `r` is what parsing the command text `input` gives, where
/// `price` parses the price field of an `ADD`.
pub open spec fn command_parsed<F: Fn(&str) -> Option<u64>>(
    input: Seq<char>,
    price: F,
    r: Result<CommandModel, ParseError>,
) -> bool {
    if input.len() == 0 {
        r == Err::<CommandModel, ParseError>(ParseError::NoneHead)
    } else {
        let fields = command_fields(input);
        let head = ascii_upper_text(fields[0]);
        if head == seq!['A', 'D', 'D'] {
            add_parsed(fields, price, r)
        } else if head == seq!['G', 'E', 'T'] {
            r == get_parsed(fields)
        } else if head == seq!['C', 'A', 'N', 'C', 'E', 'L'] {
            r == cancel_parsed(fields)
        } else if head == seq!['R', 'E', 'D', 'U', 'C', 'E'] {
            r == reduce_parsed(fields)
        } else if head == seq!['S', 'U', 'M', 'M', 'A', 'R', 'Y'] {
            r == summary_parsed(fields)
        } else {
            r == Err::<CommandModel, ParseError>(ParseError::UnknownCommand)
        }
    }
}

/// Parses the fields of an `ADD` command: `ADD, id, side, price, quantity`.
/// The price field, trimmed, is handed to `price`, which returns the
/// IEEE-754 binary64 bits of the price it reads, or `None`.
pub fn parse_add<F: Fn(&str) -> Option<u64>>(body: &Vec<Vec<char>>, price: F) -> (r: Result<Command, ParseError>)
    requires
        forall|t: &str| #[trigger] call_requires(price, (t,)),
    ensures
        add_parsed(views(body@), price, parsed(r)),
{
    if body.len() != ADD_FIELDS {
        return Err(ParseError::InvalidLength);
    }
    assert(views(body@)[1] == body@[1]@);
    assert(views(body@)[2] == body@[2]@);
    assert(views(body@)[3] == body@[3]@);
    assert(views(body@)[4] == body@[4]@);
    let id_text = trim_chars(body[1].as_slice());
    let id = match parse_u32(id_text.as_slice()) {
        Some(id) => id,
        None => return Err(ParseError::IdText),
    };
    let side_text = string_of(trim_chars(body[2].as_slice()).as_slice());
    let side = match Side::parse(side_text.as_str()) {
        Ok(side) => side,
        Err(e) => return Err(e),
    };
    let price_text = string_of(trim_chars(body[3].as_slice()).as_slice());
    let t = price_text.as_str();
    let p = price(t);
    let qty_text = trim_chars(body[4].as_slice());
    let r = match p {
        None => Err(ParseError::PriceText),
        Some(bits) => match parse_u64(qty_text.as_slice()) {
            None => Err(ParseError::QtyText),
            Some(quantity) => match Order::new(id, side, bits, quantity) {
                Ok(o) => Ok(Command::Add(o)),
                Err(e) => Err(ParseError::BuildOrderFailed(e)),
            },
        },
    };
    assert(parsed(r) == add_tail(id, side, p, trim(views(body@)[4])));
    r
}

/// Parses the fields of a `GET` command: `GET, id`.
pub fn parse_get(body: &Vec<Vec<char>>) -> (r: Result<Command, ParseError>)
    ensures
        parsed(r) == get_parsed(views(body@)),
{
    if body.len() != GET_FIELDS {
        return Err(ParseError::InvalidLength);
    }
    assert(views(body@)[1] == body@[1]@);
    match parse_u32(trim_chars(body[1].as_slice()).as_slice()) {
        Some(id) => Ok(Command::Get(id)),
        None => Err(ParseError::IdText),
    }
}

/// Parses the fields of a `CANCEL` command: `CANCEL, id`.
pub fn parse_cancel(body: &Vec<Vec<char>>) -> (r: Result<Command, ParseError>)
    ensures
        parsed(r) == cancel_parsed(views(body@)),
{
    if body.len() != CANCEL_FIELDS {
        return Err(ParseError::InvalidLength);
    }
    assert(views(body@)[1] == body@[1]@);
    match parse_u32(trim_chars(body[1].as_slice()).as_slice()) {
        Some(id) => Ok(Command::Cancel(id)),
        None => Err(ParseError::IdText),
    }
}

/// Parses the fields of a `REDUCE` command: `REDUCE, id, amount`.
pub fn parse_reduce(body: &Vec<Vec<char>>) -> (r: Result<Command, ParseError>)
    ensures
        parsed(r) == reduce_parsed(views(body@)),
{
    if body.len() != REDUCE_FIELDS {
        return Err(ParseError::InvalidLength);
    }
    assert(views(body@)[1] == body@[1]@);
    assert(views(body@)[2] == body@[2]@);
    let id = match parse_u32(trim_chars(body[1].as_slice()).as_slice()) {
        Some(id) => id,
        None => return Err(ParseError::IdText),
    };
    let amount = match parse_u64(trim_chars(body[2].as_slice()).as_slice()) {
        Some(q) => q,
        None => return Err(ParseError::QtyText),
    };
    Ok(Command::Reduce { id, amount })
}

/// Parses the fields of a `SUMMARY` command: `SUMMARY` alone.
pub fn parse_summary(body: &Vec<Vec<char>>) -> (r: Result<Command, ParseError>)
    ensures
        parsed(r) == summary_parsed(views(body@)),
{
    if body.len() != SUMMARY_FIELDS {
        return Err(ParseError::InvalidLength);
    }
    Ok(Command::Summary)
}

/// Each piece trimmed.
fn trim_all(pieces: &Vec<Vec<char>>) -> (r: Vec<Vec<char>>)
    ensures
        views(r@) == trim_each(views(pieces@)),
{
    let mut r: Vec<Vec<char>> = Vec::new();
    for i in 0..pieces.len()
        invariant
            views(r@) =~= trim_each(views(pieces@)).take(i as int),
    {
        assert(views(pieces@)[i as int] == pieces@[i as int]@);
        let t = trim_chars(pieces[i].as_slice());
        let ghost before = views(r@);
        r.push(t);
        assert(views(r@) =~= before.push(t@));
    }
    assert(trim_each(views(pieces@)).take(pieces@.len() as int) =~= trim_each(views(pieces@)));
    r
}

/// Parses a command text. `price` parses the price field of an `ADD`
/// command into the IEEE-754 binary64 bits of the price.
pub fn parse_cmd<F: Fn(&str) -> Option<u64>>(input: &str, price: F) -> (r: Result<Command, ParseError>)
    requires
        forall|t: &str| #[trigger] call_requires(price, (t,)),
    ensures
        command_parsed(input@, price, parsed(r)),
{
    if input.is_empty() {
        return Err(ParseError::NoneHead);
    }
    let chars = chars_of(input);
    let pieces = split_chars(chars.as_slice(), ',');
    proof {
        crate::text::lemma_split_on_nonempty(input@, ',');
    }
    let parts = trim_all(&pieces);
    assert(views(pieces@).len() >= 1);
    assert(parts@.len() == views(parts@).len());
    assert(views(parts@)[0] == parts@[0]@);
    let head = ascii_uppercase(parts[0].as_slice());
    if chars_eq(head.as_slice(), &['A', 'D', 'D']) {
        assert(head@ =~= seq!['A', 'D', 'D']);
        parse_add(&parts, price)
    } else if chars_eq(head.as_slice(), &['G', 'E', 'T']) {
        assert(head@ =~= seq!['G', 'E', 'T']);
        parse_get(&parts)
    } else if chars_eq(head.as_slice(), &['C', 'A', 'N', 'C', 'E', 'L']) {
        assert(head@ =~= seq!['C', 'A', 'N', 'C', 'E', 'L']);
        parse_cancel(&parts)
    } else if chars_eq(head.as_slice(), &['R', 'E', 'D', 'U', 'C', 'E']) {
        assert(head@ =~= seq!['R', 'E', 'D', 'U', 'C', 'E']);
        parse_reduce(&parts)
    } else if chars_eq(head.as_slice(), &['S', 'U', 'M', 'M', 'A', 'R', 'Y']) {
        assert(head@ =~= seq!['S', 'U', 'M', 'M', 'A', 'R', 'Y']);
        parse_summary(&parts)
    } else {
        assert(head@ != seq!['A', 'D', 'D']);
        assert(head@ != seq!['G', 'E', 'T']);
        assert(head@ != seq!['C', 'A', 'N', 'C', 'E', 'L']);
        assert(head@ != seq!['R', 'E', 'D', 'U', 'C', 'E']);
        assert(head@ != seq!['S', 'U', 'M', 'M', 'A', 'R', 'Y']);
        Err(ParseError::UnknownCommand)
    }
}

} // verus!
