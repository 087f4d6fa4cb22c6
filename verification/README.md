# trading_sys

The core of a small trading system, written in Verus and verified.

- `src/command_book/`: an order book driven by comma-separated text
  commands (`ADD,1,BUY,100.25,10`, `GET,1`, `REDUCE,1,3`, `CANCEL,1`,
  `SUMMARY`): orders, their sides and errors, the book, the engine that
  executes commands, and the parser.
- `src/event.rs`, `src/journal.rs`, `src/replay.rs`, `src/engine.rs`: the
  event-sourced engine: sequence numbers, the journal's record format and
  reading it back, replay with gap detection, recovery, and the decisions of
  the engine loop.
- `src/protocol.rs`, `src/gateway.rs`, `src/stateless_gateway.rs`: the
  line protocol of orders and the handlers behind the gateways.
- `src/instrument.rs`, `src/catalog.rs`, `src/symbol.rs`, `src/model.rs`,
  `src/limit_order.rs`, `src/orderbook.rs`, `src/service.rs`: the domain
  model.
- `src/text.rs`, `src/decimal.rs`: character-level text handling and
  decimal numerals.
- `app/`: the servers: sockets, threads, channels, journal files, and the
  parsing of prices as binary64 numbers.
