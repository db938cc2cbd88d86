//! Aggregation of trade prints and order books from several exchange feeds.
//!
//! The library holds the state of every subscribed channel and the rules that
//! change it: which client requests succeed, how each exchange's messages turn
//! into canonical trades and book updates, and how a tape stays bounded.
//! Connections, threads and wire decoding live outside it and hand it plain values.
pub mod app;
pub mod book;
pub mod channels;
pub mod client;
pub mod decimal;
pub mod error;
pub mod gdax;
pub mod hyperliquid;
pub mod kraken;
pub mod timestamp;
pub mod trades;
