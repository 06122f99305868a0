//! Market data: the events and snapshots that are published, the consumer that turns
//! trades into candles and statistics, the publisher's candle series, the cache in
//! front of them and the client of their HTTP interface.

pub mod model;
pub mod consumer;
pub mod publisher;
pub mod cache;
pub mod api;
