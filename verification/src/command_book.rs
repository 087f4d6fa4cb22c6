//! An order book driven by comma-separated text commands such as
//! `ADD,1,BUY,100.25,10`, `GET,1`, `REDUCE,1,3`, `CANCEL,1` and `SUMMARY`.
pub mod command;
pub mod engine;
pub mod error;
pub mod order;
pub mod orderbook;
pub mod parser;
pub mod side;
pub mod summary;
