use trading_sys::command_book::command::Command;
use trading_sys::command_book::engine::{Engine, ExecResult};
use trading_sys::command_book::error::{ExecErr, OrderBookError, OrderError, ParseError};
use trading_sys::command_book::order::Order;
use trading_sys::command_book::orderbook::OrderBook;
use trading_sys::command_book::parser::parse_cmd;
use trading_sys::command_book::side::Side;

fn price(text: &str) -> Option<u64> {
    text.parse::<f64>().ok().map(f64::to_bits)
}

fn create_test_order() -> Order {
    Order::new(1, Side::Buy, 100.25f64.to_bits(), 10).unwrap()
}

#[test]
fn new_should_create_order() {
    let order = create_test_order();

    assert_eq!(order.id(), 1);
    assert_eq!(order.quantity(), 10);
    assert!(order.is_buy());
}

#[test]
fn new_should_reject_invalid_price() {
    let result = Order::new(1, Side::Buy, 0.0f64.to_bits(), 10);

    assert_eq!(result.unwrap_err(), OrderError::InvalidPrice);
}

#[test]
fn new_should_reject_nan_price() {
    let result = Order::new(1, Side::Buy, f64::NAN.to_bits(), 10);

    assert_eq!(result.unwrap_err(), OrderError::InvalidPrice);
}

#[test]
fn new_should_reject_zero_quantity() {
    let result = Order::new(1, Side::Buy, 100.0f64.to_bits(), 0);

    assert_eq!(result.unwrap_err(), OrderError::InvalidQty);
}

#[test]
fn buy_order_should_report_correct_side() {
    let order = create_test_order();

    assert!(order.is_buy());
    assert!(!order.is_sell());
}

#[test]
fn reduce_should_decrease_quantity() {
    let mut order = create_test_order();

    let result = order.reduce(3);

    assert_eq!(result.unwrap(), 7);

    assert_eq!(order.quantity(), 7);
}

#[test]
fn reduce_should_fail_when_amount_exceeds_quantity() {
    let mut order = create_test_order();

    let result = order.reduce(20);

    assert_eq!(result.unwrap_err(), OrderError::ReduceAmountExceedsRemaining);

    assert_eq!(order.quantity(), 10);
}

#[test]
fn reduce_should_fail_when_amount_is_zero() {
    let mut order = create_test_order();

    let result = order.reduce(0);

    assert_eq!(result.unwrap_err(), OrderError::ZeroReduceAmount);

    assert_eq!(order.quantity(), 10);
}

#[test]
fn reduce_all_quantity_should_mark_filled() {
    let mut order = create_test_order();

    let result = order.reduce(10);

    assert_eq!(result.unwrap(), 0);

    assert!(order.is_filled());
}

#[test]
fn buy_side_should_be_buy() {
    assert!(Side::Buy.is_buy());
    assert!(!Side::Buy.is_sell());
}

#[test]
fn sell_side_should_be_sell() {
    assert!(Side::Sell.is_sell());
    assert!(!Side::Sell.is_buy());
}

#[test]
fn new_rejects_negative_and_infinite_prices() {
    assert_eq!(Order::new(1, Side::Sell, (-1.0f64).to_bits(), 5).unwrap_err(), OrderError::InvalidPrice);
    assert_eq!(Order::new(1, Side::Sell, f64::INFINITY.to_bits(), 5).unwrap_err(), OrderError::InvalidPrice);
    assert_eq!(Order::new(1, Side::Sell, (-0.0f64).to_bits(), 5).unwrap_err(), OrderError::InvalidPrice);
    assert!(Order::new(1, Side::Sell, f64::MIN_POSITIVE.to_bits(), 5).is_ok());
    assert!(Order::new(1, Side::Sell, f64::MAX.to_bits(), 5).is_ok());
}

#[test]
fn side_parse_ignores_case_and_spaces() {
    assert_eq!(Side::parse(" buy "), Ok(Side::Buy));
    assert_eq!(Side::parse("Sell"), Ok(Side::Sell));
    assert_eq!(Side::parse("hold"), Err(ParseError::SideText));
    assert_eq!(Side::parse(""), Err(ParseError::SideText));
}

#[test]
fn side_parse_uses_unicode_upper_case() {
    // U+017F LATIN SMALL LETTER LONG S upper-cases to 'S'.
    assert_eq!(Side::parse("\u{17f}ell"), Ok(Side::Sell));
}

#[test]
fn book_add_get_cancel() {
    let mut book = OrderBook::new();
    let order = create_test_order();
    assert_eq!(book.add(order), Ok(()));
    assert_eq!(book.add(order), Err(OrderBookError::DuplicateId(1)));
    assert_eq!(book.len(), 1);
    assert_eq!(book.get(1).map(|o| o.quantity()), Some(10));
    assert!(book.get(2).is_none());
    assert_eq!(book.cancel(1), Ok(()));
    assert_eq!(book.len(), 0);
    assert_eq!(book.cancel(1), Err(OrderBookError::NotFound(1)));
}

#[test]
fn book_reduce_and_summary() {
    let mut book = OrderBook::new();
    book.add(Order::new(1, Side::Buy, 100.0f64.to_bits(), 10).unwrap()).unwrap();
    book.add(Order::new(2, Side::Sell, 101.0f64.to_bits(), 4).unwrap()).unwrap();
    book.add(Order::new(3, Side::Buy, 99.5f64.to_bits(), 6).unwrap()).unwrap();
    let s = book.summary().unwrap();
    assert_eq!((s.order_count, s.buy_count, s.sell_count, s.total_quantity), (3, 2, 1, 20));
    assert_eq!(book.reduce(1, 3), Ok(7));
    assert_eq!(book.summary().unwrap().total_quantity, 17);
    assert_eq!(book.reduce(2, 4), Ok(0));
    assert_eq!(book.len(), 2);
    assert_eq!(book.reduce(2, 1), Err(OrderBookError::NotFound(2)));
    assert_eq!(book.reduce(3, 0), Err(OrderBookError::OrderError(OrderError::ZeroReduceAmount)));
    assert_eq!(book.reduce(3, 7), Err(OrderBookError::OrderError(OrderError::ReduceAmountExceedsRemaining)));
    assert_eq!(book.summary().unwrap().total_quantity, 13);
}

#[test]
fn parse_commands() {
    assert_eq!(parse_cmd(" add ,1,buy,88.8,100 ", price), Ok(Command::Add(Order::new(1, Side::Buy, 88.8f64.to_bits(), 100).unwrap())));
    assert_eq!(parse_cmd("get, 1", price), Ok(Command::Get(1)));
    assert_eq!(parse_cmd("CANCEL,7", price), Ok(Command::Cancel(7)));
    assert_eq!(parse_cmd("reduce, 1, 33", price), Ok(Command::Reduce { id: 1, amount: 33 }));
    assert_eq!(parse_cmd("Summary", price), Ok(Command::Summary));
}

#[test]
fn parse_errors() {
    assert_eq!(parse_cmd("", price), Err(ParseError::NoneHead));
    assert_eq!(parse_cmd("FOO,1", price), Err(ParseError::UnknownCommand));
    assert_eq!(parse_cmd("ADD,1,BUY,1.0", price), Err(ParseError::InvalidLength));
    assert_eq!(parse_cmd("ADD,x,BUY,1.0,5", price), Err(ParseError::IdText));
    assert_eq!(parse_cmd("ADD,1,HOLD,1.0,5", price), Err(ParseError::SideText));
    assert_eq!(parse_cmd("ADD,1,BUY,abc,5", price), Err(ParseError::PriceText));
    assert_eq!(parse_cmd("ADD,1,BUY,1.0,-5", price), Err(ParseError::QtyText));
    assert_eq!(parse_cmd("ADD,1,BUY,0,5", price), Err(ParseError::BuildOrderFailed(OrderError::InvalidPrice)));
    assert_eq!(parse_cmd("ADD,1,BUY,1.5,0", price), Err(ParseError::BuildOrderFailed(OrderError::InvalidQty)));
    assert_eq!(parse_cmd("GET", price), Err(ParseError::InvalidLength));
    assert_eq!(parse_cmd("GET,4294967296", price), Err(ParseError::IdText));
    assert_eq!(parse_cmd("REDUCE,1,+3", price), Ok(Command::Reduce { id: 1, amount: 3 }));
    assert_eq!(parse_cmd("SUMMARY,1", price), Err(ParseError::InvalidLength));
}

#[test]
fn error_messages() {
    assert_eq!(OrderBookError::DuplicateId(42).message(), "duplicated id: 42");
    assert_eq!(OrderBookError::NotFound(0).message(), "order not found: 0");
    assert_eq!(
        OrderBookError::OrderError(OrderError::ZeroReduceAmount).message(),
        "Order Error: reduce amount must be greater than zero"
    );
    assert_eq!(ExecErr::OrderBook(OrderBookError::NotFound(7)).message(), "order not found: 7");
    assert_eq!(
        ParseError::BuildOrderFailed(OrderError::InvalidQty).message(),
        "build order failed: quantity must be positive and finite"
    );
    assert_eq!(ParseError::UnknownCommand.message(), "unknown command");
    assert_eq!(OrderError::InvalidPrice.message(), "price must be positive and finite");
}

#[test]
fn engine_executes_commands() {
    let mut engine = Engine::new(OrderBook::new());
    let run = |engine: &mut Engine, text: &str| engine.execute(parse_cmd(text, price).unwrap());

    assert!(matches!(run(&mut engine, "ADD,1,BUY,100,10"), Ok(ExecResult::AddSucc { id: 1 })));
    assert!(matches!(run(&mut engine, "ADD,1,SELL,100,10"), Err(ExecErr::OrderBook(OrderBookError::DuplicateId(1)))));
    match run(&mut engine, "GET,1") {
        Ok(ExecResult::FindSucc(o)) => assert_eq!(o.quantity(), 10),
        other => panic!("unexpected {:?}", other),
    }
    assert!(matches!(run(&mut engine, "REDUCE,1,3"), Ok(ExecResult::ReduceSucc { id: 1, remaining: 7 })));
    match run(&mut engine, "SUMMARY") {
        Ok(ExecResult::SummarySucc(s)) => assert_eq!((s.order_count, s.total_quantity), (1, 7)),
        other => panic!("unexpected {:?}", other),
    }
    assert!(matches!(run(&mut engine, "CANCEL,1"), Ok(ExecResult::RemoveSucc { id: 1 })));
    assert!(matches!(run(&mut engine, "GET,1"), Err(ExecErr::OrderBook(OrderBookError::NotFound(1)))));
}

#[test]
fn cancel_after_add_restores_book() {
    let mut book = OrderBook::new();
    book.add(Order::new(5, Side::Sell, 2.0f64.to_bits(), 3).unwrap()).unwrap();
    let before = book.summary().unwrap();
    book.add(Order::new(6, Side::Buy, 2.0f64.to_bits(), 9).unwrap()).unwrap();
    assert_eq!(book.get(6).map(|o| o.id()), Some(6));
    book.cancel(6).unwrap();
    assert_eq!(book.summary().unwrap(), before);
}

#[test]
fn order_keeps_its_side_and_price() {
    let order = Order::new(3, Side::Sell, 100.25f64.to_bits(), 4).unwrap();
    assert_eq!(order.side(), Side::Sell);
    assert_eq!(f64::from_bits(order.price_bits()), 100.25);
}
