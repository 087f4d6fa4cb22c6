use trading_sys::gateway::{OrderHandler, SimpleOrderHandler};
use trading_sys::orderbook::MiniOrderBook;
use trading_sys::protocol::{OrderCodec, OrderRequest, OrderResponse, OrderView};
use trading_sys::service::BookService;
use trading_sys::stateless_gateway;

#[test]
fn decode_add_order() {
    let result = OrderCodec::decode("ADD 1 BTCUSDT 10").unwrap();

    assert_eq!(
        result,
        OrderRequest::AddOrder {
            id: 1,
            symbol: "BTCUSDT".to_string(),
            qty: 10,
        }
    );
}

#[test]
fn decode_book() {
    let result = OrderCodec::decode("BOOK").unwrap();

    assert_eq!(result, OrderRequest::Book);
}

#[test]
fn reject_invalid_order_id() {
    let result = OrderCodec::decode("ADD abc BTCUSDT 10");

    assert_eq!(result, Err("invalid order id".to_string()));
}

#[test]
fn encode_accepted() {
    let result = OrderCodec::encode(OrderResponse::Accepted { id: 7 });

    assert_eq!(result, "ACCEPTED id=7\n");
}

#[test]
fn decode_errors() {
    assert_eq!(OrderCodec::decode("   "), Err("empty order request".to_string()));
    assert_eq!(OrderCodec::decode("ADD 1 BTCUSDT ten"), Err("invalid quantity".to_string()));
    assert_eq!(OrderCodec::decode("ADD 1 BTCUSDT"), Err("unknown or malformed order request".to_string()));
    assert_eq!(OrderCodec::decode("add 1 BTCUSDT 10"), Err("unknown or malformed order request".to_string()));
    assert_eq!(OrderCodec::decode("BOOK now"), Err("unknown or malformed order request".to_string()));
    assert_eq!(
        OrderCodec::decode("\tADD   18446744073709551615  X 0 \n"),
        Ok(OrderRequest::AddOrder { id: u64::MAX, symbol: "X".to_string(), qty: 0 })
    );
    assert_eq!(OrderCodec::decode("ADD 18446744073709551616 X 1"), Err("invalid order id".to_string()));
}

#[test]
fn encode_book_and_error() {
    let orders = vec![
        OrderView { id: 1, symbol: "BTCUSDT".to_string(), qty: 10 },
        OrderView { id: 2, symbol: "ETHUSDT".to_string(), qty: 20 },
    ];
    assert_eq!(
        OrderCodec::encode(OrderResponse::BookSnapshot { orders }),
        "BOOK count=2 orders=[1:BTCUSDT:10,2:ETHUSDT:20]\n"
    );
    assert_eq!(OrderCodec::encode(OrderResponse::BookSnapshot { orders: Vec::new() }), "BOOK count=0 orders=[]\n");
    assert_eq!(
        OrderCodec::encode(OrderResponse::Error { message: "bad".to_string() }),
        "ERR bad\n"
    );
}

#[test]
fn handler_adds_then_shows_book() {
    let mut handler = SimpleOrderHandler::new(BookService::new(MiniOrderBook::new()));
    let accepted = handler.handle(OrderRequest::AddOrder { id: 1, symbol: "BTCUSDT".to_string(), qty: 10 });
    assert_eq!(accepted, OrderResponse::Accepted { id: 1 });
    handler.handle(OrderRequest::AddOrder { id: 2, symbol: "ETHUSDT".to_string(), qty: 20 });
    let book = handler.handle(OrderRequest::Book);
    assert_eq!(
        OrderCodec::encode(book),
        "BOOK count=2 orders=[1:BTCUSDT:10,2:ETHUSDT:20]\n"
    );
}

#[test]
fn stateless_order_handler() {
    let h = stateless_gateway::SimpleOrderHandler;
    assert_eq!(
        stateless_gateway::OrderHandler::handle(&h, OrderRequest::AddOrder { id: 9, symbol: "X".to_string(), qty: 1 }),
        OrderResponse::Accepted { id: 9 }
    );
    assert_eq!(stateless_gateway::OrderHandler::handle(&h, OrderRequest::Book), OrderResponse::BookSnapshot { orders: Vec::new() });
}

#[test]
fn book_service_snapshot() {
    let mut service = BookService::new(MiniOrderBook::new());
    assert_eq!(service.add_order(1, "BTCUSDT".to_string(), 10).id, 1);
    let snapshot = service.get_book();
    assert_eq!(snapshot.orders.len(), 1);
    assert_eq!(snapshot.orders[0].id(), 1);
    assert_eq!(snapshot.orders[0].symbol(), "BTCUSDT");
}
