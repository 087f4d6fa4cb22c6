//! The text protocols of the gateways: order requests and responses, one
//! per line, and market-data requests and responses.
use vstd::prelude::*;

use crate::model::{order_views, Order, OrderModel};
use crate::text::{
    chars_eq, chars_of, is_space, is_word, join, lemma_words_of_spaced, push_char, string_of, views,
    words, words_of,
};
use crate::decimal::{
    decimal, is_digit, law_decimal_round_trip_u64, lemma_decimal, parse_u64, parse_u64_spec, push_decimal,
};
use vstd::string::StringExecFns;

verus! {

#[derive(Debug, PartialEq, Eq)]
pub enum OrderRequest {
    AddOrder { id: u64, symbol: String, qty: u64 },
    Book,
}

/// What an order request holds.
pub enum OrderRequestModel {
    AddOrder { id: u64, symbol: Seq<char>, qty: u64 },
    Book,
}

impl View for OrderRequest {
    type V = OrderRequestModel;

    open spec fn view(&self) -> OrderRequestModel {
        match self {
            OrderRequest::AddOrder { id, symbol, qty } => OrderRequestModel::AddOrder {
                id: *id,
                symbol: symbol@,
                qty: *qty,
            },
            OrderRequest::Book => OrderRequestModel::Book,
        }
    }
}

/// An order as the protocol shows it.
#[derive(Debug, PartialEq, Eq)]
pub struct OrderView {
    pub id: u64,
    pub symbol: String,
    pub qty: u64,
}

impl View for OrderView {
    type V = OrderModel;

    open spec fn view(&self) -> OrderModel {
        OrderModel { id: self.id, symbol: self.symbol@, qty: self.qty }
    }
}

/// The views of a sequence of order views.
pub open spec fn order_view_models(v: Seq<OrderView>) -> Seq<OrderModel> {
    Seq::new(v.len(), |i: int| v[i]@)
}

#[derive(Debug, PartialEq, Eq)]
pub enum OrderResponse {
    Accepted { id: u64 },
    BookSnapshot { orders: Vec<OrderView> },
    Error { message: String },
}

/// What an order response holds.
pub enum OrderResponseModel {
    Accepted { id: u64 },
    BookSnapshot { orders: Seq<OrderModel> },
    Error { message: Seq<char> },
}

impl View for OrderResponse {
    type V = OrderResponseModel;

    open spec fn view(&self) -> OrderResponseModel {
        match self {
            OrderResponse::Accepted { id } => OrderResponseModel::Accepted { id: *id },
            OrderResponse::BookSnapshot { orders } => OrderResponseModel::BookSnapshot {
                orders: order_view_models(orders@),
            },
            OrderResponse::Error { message } => OrderResponseModel::Error { message: message@ },
        }
    }
}

/// A request for market data.
#[derive(Debug, PartialEq, Eq)]
pub enum MarketDataRequest {
    Instrument { symbol: String },
}

/// An answer to a market-data request.
#[derive(Debug, PartialEq, Eq)]
pub enum MarketDataResponse {
    InstrumentInfo { symbol: String, tick_size: u64, lot_size: u64, status: String },
    Error { message: String },
}

/// What a market-data response holds.
pub enum MarketDataResponseModel {
    InstrumentInfo { symbol: Seq<char>, tick_size: u64, lot_size: u64, status: Seq<char> },
    Error { message: Seq<char> },
}

impl View for MarketDataResponse {
    type V = MarketDataResponseModel;

    open spec fn view(&self) -> MarketDataResponseModel {
        match self {
            MarketDataResponse::InstrumentInfo { symbol, tick_size, lot_size, status } =>
                MarketDataResponseModel::InstrumentInfo {
                symbol: symbol@,
                tick_size: *tick_size,
                lot_size: *lot_size,
                status: status@,
            },
            MarketDataResponse::Error { message } => MarketDataResponseModel::Error { message: message@ },
        }
    }
}

/// What decoding the request line `input` gives: its whitespace-separated
/// words must be `ADD id symbol qty` or `BOOK`.
pub open spec fn decode_spec(input: Seq<char>) -> Result<OrderRequestModel, Seq<char>> {
    let parts = words(input);
    if parts.len() == 4 && parts[0] == seq!['A', 'D', 'D'] {
        match parse_u64_spec(parts[1]) {
            None => Err("invalid order id"@),
            Some(id) => match parse_u64_spec(parts[3]) {
                None => Err("invalid quantity"@),
                Some(qty) => Ok(OrderRequestModel::AddOrder { id, symbol: parts[2], qty }),
            },
        }
    } else if parts.len() == 1 && parts[0] == seq!['B', 'O', 'O', 'K'] {
        Ok(OrderRequestModel::Book)
    } else if parts.len() == 0 {
        Err("empty order request"@)
    } else {
        Err("unknown or malformed order request"@)
    }
}

/// How one order is shown in a book response: `id:symbol:qty`.
pub open spec fn order_entry_text(o: OrderModel) -> Seq<char> {
    decimal(o.id as nat) + seq![':'] + o.symbol + seq![':'] + decimal(o.qty as nat)
}

/// The entries of the orders `orders`.
pub open spec fn order_entries(orders: Seq<OrderModel>) -> Seq<Seq<char>> {
    Seq::new(orders.len(), |i: int| order_entry_text(orders[i]))
}

/// The line that encodes `response`.
pub open spec fn encode_spec(response: OrderResponseModel) -> Seq<char> {
    match response {
        OrderResponseModel::Accepted { id } => "ACCEPTED id="@ + decimal(id as nat) + seq!['\n'],
        OrderResponseModel::BookSnapshot { orders } => "BOOK count="@ + decimal(orders.len()) + " orders=["@
            + join(order_entries(orders), seq![',']) + seq![']', '\n'],
        OrderResponseModel::Error { message } => "ERR "@ + message + seq!['\n'],
    }
}

proof fn lemma_decimal_is_word(n: nat)
    ensures
        is_word(decimal(n)),
{
    lemma_decimal(n);
    assert forall|i: int| 0 <= i < decimal(n).len() implies !is_space(#[trigger] decimal(n)[i]) by {
        assert(is_digit(decimal(n)[i]));
    }
}

/// The request line `ADD id symbol qty`, its fields separated by single
/// spaces, the numbers written in decimal.
pub open spec fn add_request_line(id: u64, symbol: Seq<char>, qty: u64) -> Seq<char> {
    join(seq![seq!['A', 'D', 'D'], decimal(id as nat), symbol, decimal(qty as nat)], seq![' '])
}

/// A request line `ADD id symbol qty` decodes to that order, for any symbol
/// that is one word (non-empty, without whitespace).
pub proof fn law_decode_add_request(id: u64, symbol: Seq<char>, qty: u64)
    requires
        is_word(symbol),
    ensures
        decode_spec(add_request_line(id, symbol, qty)) == Ok::<OrderRequestModel, Seq<char>>(
            OrderRequestModel::AddOrder { id, symbol, qty },
        ),
{
    let ws = seq![seq!['A', 'D', 'D'], decimal(id as nat), symbol, decimal(qty as nat)];
    lemma_decimal_is_word(id as nat);
    lemma_decimal_is_word(qty as nat);
    assert(is_word(ws[0]));
    assert(is_word(ws[1]));
    assert(is_word(ws[2]));
    assert(is_word(ws[3]));
    assert forall|i: int| 0 <= i < ws.len() implies is_word(#[trigger] ws[i]) by {}
    lemma_words_of_spaced(ws);
    law_decimal_round_trip_u64(id);
    law_decimal_round_trip_u64(qty);
}

/// A request line decodes to an order only when it is exactly four words,
/// `ADD`, the id, the symbol and the quantity, the id and quantity being
/// the numbers those words denote; a line of any other number of words
/// that starts with `ADD` is refused as malformed; and a line decodes to
/// `Book` only when it is the one word `BOOK`.
pub proof fn law_decode_needs_whole_request(input: Seq<char>)
    ensures
        decode_spec(input) matches Ok(OrderRequestModel::AddOrder { id, symbol, qty }) ==> {
            &&& words(input).len() == 4
            &&& words(input)[0] == seq!['A', 'D', 'D']
            &&& parse_u64_spec(words(input)[1]) == Some(id)
            &&& words(input)[2] == symbol
            &&& parse_u64_spec(words(input)[3]) == Some(qty)
        },
        words(input).len() > 0 && words(input)[0] == seq!['A', 'D', 'D'] && words(input).len() != 4
            ==> decode_spec(input) == Err::<OrderRequestModel, Seq<char>>("unknown or malformed order request"@),
        decode_spec(input) matches Ok(OrderRequestModel::Book) ==> words(input) == seq![seq!['B', 'O', 'O', 'K']],
{
    let parts = words(input);
    if parts.len() == 1 && parts[0] == seq!['B', 'O', 'O', 'K'] {
        assert(parts =~= seq![seq!['B', 'O', 'O', 'K']]);
    }
    if parts.len() > 0 && parts[0] == seq!['A', 'D', 'D'] {
        assert(parts[0] != seq!['B', 'O', 'O', 'K']);
    }
}

/// The line that accepts an order reads `ACCEPTED id=`, then the id in
/// decimal, which reads back as the id, then a line end.
pub proof fn law_accepted_line_reads_back(id: u64)
    ensures
        encode_spec(OrderResponseModel::Accepted { id }).len() > 13,
        encode_spec(OrderResponseModel::Accepted { id }).take(12) == "ACCEPTED id="@,
        encode_spec(OrderResponseModel::Accepted { id }).last() == '\n',
        parse_u64_spec(
            encode_spec(OrderResponseModel::Accepted { id }).subrange(
                12,
                encode_spec(OrderResponseModel::Accepted { id }).len() - 1,
            ),
        ) == Some(id),
{
    reveal_strlit("ACCEPTED id=");
    let line = encode_spec(OrderResponseModel::Accepted { id });
    let d = decimal(id as nat);
    lemma_decimal(id as nat);
    assert(line.take(12) =~= "ACCEPTED id="@);
    assert(line.subrange(12, line.len() - 1) =~= d);
    law_decimal_round_trip_u64(id);
}

/// A decoding result, seen through the views.
pub open spec fn decoded_request(r: Result<OrderRequest, String>) -> Result<OrderRequestModel, Seq<char>> {
    match r {
        Ok(req) => Ok(req@),
        Err(m) => Err(m@),
    }
}

/// The protocol views of `orders`, in order.
pub fn order_views_of(orders: &Vec<Order>) -> (r: Vec<OrderView>)
    ensures
        order_view_models(r@) == order_views(orders@),
{
    let mut r: Vec<OrderView> = Vec::new();
    for i in 0..orders.len()
        invariant
            order_view_models(r@) =~= order_views(orders@).take(i as int),
    {
        let o = &orders[i];
        let v = OrderView { id: o.id(), symbol: string_of(chars_of(o.symbol()).as_slice()), qty: o.qty() };
        let ghost before = order_view_models(r@);
        r.push(v);
        assert(order_view_models(r@) =~= before.push(o@));
    }
    assert(order_views(orders@).take(orders@.len() as int) =~= order_views(orders@));
    r
}

pub struct OrderCodec;

impl OrderCodec {
    /// Decodes one request line.
    pub fn decode(input: &str) -> (r: Result<OrderRequest, String>)
        ensures
            decoded_request(r) == decode_spec(input@),
    {
        let chars = chars_of(input);
        let parts = words_of(chars.as_slice());
        assert(parts@.len() == views(parts@).len());
        if parts.len() == 4 && chars_eq(parts[0].as_slice(), &['A', 'D', 'D']) {
            assert(views(parts@)[0] =~= seq!['A', 'D', 'D']);
            assert(views(parts@)[1] == parts@[1]@);
            assert(views(parts@)[2] == parts@[2]@);
            assert(views(parts@)[3] == parts@[3]@);
            let id = match parse_u64(parts[1].as_slice()) {
                Some(id) => id,
                None => return Err(String::from_str("invalid order id")),
            };
            let qty = match parse_u64(parts[3].as_slice()) {
                Some(q) => q,
                None => return Err(String::from_str("invalid quantity")),
            };
            Ok(OrderRequest::AddOrder { id, symbol: string_of(parts[2].as_slice()), qty })
        } else if parts.len() == 1 && chars_eq(parts[0].as_slice(), &['B', 'O', 'O', 'K']) {
            assert(views(parts@)[0] =~= seq!['B', 'O', 'O', 'K']);
            Ok(OrderRequest::Book)
        } else if parts.len() == 0 {
            Err(String::from_str("empty order request"))
        } else {
            proof {
                if parts@.len() == 4 {
                    assert(views(parts@)[0] == parts@[0]@);
                    assert(views(parts@)[0] != seq!['A', 'D', 'D']);
                }
                if parts@.len() == 1 {
                    assert(views(parts@)[0] == parts@[0]@);
                    assert(views(parts@)[0] != seq!['B', 'O', 'O', 'K']);
                }
            }
            Err(String::from_str("unknown or malformed order request"))
        }
    }

    /// Encodes a response as one line.
    pub fn encode(response: OrderResponse) -> (r: String)
        ensures
            r@ == encode_spec(response@),
    {
        match response {
            OrderResponse::Accepted { id } => {
                let mut s = String::from_str("ACCEPTED id=");
                push_decimal(&mut s, id);
                push_char(&mut s, '\n');
                s
            },
            OrderResponse::BookSnapshot { orders } => {
                let ghost models = order_view_models(orders@);
                let ghost entries = order_entries(models);
                let mut s = String::from_str("BOOK count=");
                push_decimal(&mut s, orders.len() as u64);
                s.append(" orders=[");
                let ghost prefix = s@;
                assert(entries.take(0) =~= Seq::<Seq<char>>::empty());
                for i in 0..orders.len()
                    invariant
                        models == order_view_models(orders@),
                        entries == order_entries(models),
                        s@ == prefix + join(entries.take(i as int), seq![',']),
                {
                    if i > 0 {
                        push_char(&mut s, ',');
                    }
                    let o = &orders[i];
                    push_decimal(&mut s, o.id);
                    push_char(&mut s, ':');
                    s.append(o.symbol.as_str());
                    push_char(&mut s, ':');
                    push_decimal(&mut s, o.qty);
                    proof {
                        assert(models[i as int] == o@);
                        assert(entries[i as int] == order_entry_text(o@));
                        assert(entries.take(i + 1).drop_last() =~= entries.take(i as int));
                        assert(entries.take(i + 1).last() == entries[i as int]);
                        if i == 0 {
                            assert(entries.take(1) =~= seq![entries[0]]);
                        }
                    }
                    assert(s@ =~= prefix + join(entries.take(i + 1), seq![',']));
                }
                assert(entries.take(orders@.len() as int) =~= entries);
                push_char(&mut s, ']');
                push_char(&mut s, '\n');
                assert(s@ =~= encode_spec(response@));
                s
            },
            OrderResponse::Error { message } => {
                let mut s = String::from_str("ERR ");
                s.append(message.as_str());
                push_char(&mut s, '\n');
                s
            },
        }
    }
}

} // verus!
