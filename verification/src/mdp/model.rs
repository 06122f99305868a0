//! The market data that is published: events, candles and order book snapshots.

use vstd::prelude::*;

verus! {

/// A candle: open and close time, open, high, low and close price, volume and number
/// of trades.
#[derive(Clone, Copy, Debug, PartialEq, Eq, Structural)]
pub struct CandlestickData {
    pub open_time: u64,
    pub close_time: u64,
    pub open: u64,
    pub high: u64,
    pub low: u64,
    pub close: u64,
    pub volume: u64,
    pub trade_count: u64,
}

/// One event of the market data feed.
#[derive(Debug)]
pub enum MarketDataEvent {
    OrderBookUpdate { symbol: String, bids: Vec<(u64, u64)>, asks: Vec<(u64, u64)> },
    TradeUpdate { symbol: String, price: u64, quantity: u64, timestamp: u64 },
    CandlestickUpdate { symbol: String, interval: String, candle: CandlestickData },
    Execution {
        symbol: String,
        execution_id: String,
        order_id: String,
        side: String,
        price: u64,
        quantity: u64,
        timestamp: u64,
    },
}

/// A price level of an order book: price, resting volume and number of orders.
#[derive(Clone, Copy, Debug, PartialEq, Eq, Structural)]
pub struct OrderBookLevel {
    pub price: u64,
    pub volume: u64,
    pub order_count: u64,
}

/// A snapshot of an order book as the feed publishes it.
#[derive(Debug)]
pub struct OrderBookSnapshotMDP {
    pub symbol: String,
    pub timestamp: u64,
    pub bids: Vec<OrderBookLevel>,
    pub asks: Vec<OrderBookLevel>,
}

} // verus!
