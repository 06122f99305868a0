//! Requests, responses and order book update messages.

use vstd::prelude::*;
use crate::model::{Side, OrderType, ExecutionReport, OrderBookSnapshot as EngineOrderBookSnapshot};

verus! {

/// An order submission.
#[derive(Debug)]
pub struct OrderRequest {
    pub symbol: String,
    pub side: Side,
    pub order_type: OrderType,
    pub price: Option<u64>,
    pub quantity: u64,
    pub client_id: String,
}

/// The answer to an order submission.
#[derive(Debug)]
pub struct OrderResponse {
    pub order_id: String,
    pub status: String,
    pub message: String,
}

/// A cancel request.
#[derive(Debug)]
pub struct CancelOrderRequest {
    pub order_id: String,
}

/// The answer to a cancel request.
#[derive(Debug)]
pub struct CancelOrderResponse {
    pub order_id: String,
    pub status: String,
    pub message: String,
}

/// A list of executions.
#[derive(Debug)]
pub struct ExecutionResponse {
    pub executions: Vec<ExecutionReport>,
}

/// An order book snapshot answer.
#[derive(Debug)]
pub struct OrderBookResponse {
    pub orderbook: EngineOrderBookSnapshot,
}

/// Candles of one symbol and interval.
#[derive(Debug)]
pub struct CandleResponse {
    pub symbol: String,
    pub interval: String,
    pub candles: Vec<CandleData>,
}

/// One candle.
#[derive(Debug, Clone, Copy, PartialEq, Eq, Structural)]
pub struct CandleData {
    pub open_time: u64,
    pub close_time: u64,
    pub open: u64,
    pub high: u64,
    pub low: u64,
    pub close: u64,
    pub volume: u64,
    pub trade_count: u64,
}

/// Kind of change of one price level.
#[derive(Debug, Clone, Copy, PartialEq, Eq, Structural)]
pub enum OrderBookChangeType {
    /// A new price level.
    Add,
    /// A level whose quantity changed.
    Update,
    /// A level that is gone.
    Remove,
}

/// Change of one price level.
#[derive(Debug, Clone, Copy, PartialEq, Eq, Structural)]
pub struct OrderBookChange {
    /// Kind of change.
    pub change_type: OrderBookChangeType,
    /// Price of the level.
    pub price: u64,
    /// New quantity of the level (0 for a removal).
    pub quantity: u64,
}

/// The changes of an order book since the last state sent.
#[derive(Debug)]
pub struct OrderBookDelta {
    pub symbol: String,
    pub bid_changes: Vec<OrderBookChange>,
    pub ask_changes: Vec<OrderBookChange>,
    pub timestamp: u64,
    /// Sequence number, for synchronisation.
    pub sequence: u64,
}

/// The whole state of an order book.
#[derive(Debug)]
pub struct OrderBookSnapshot {
    pub symbol: String,
    pub bids: Vec<(u64, u64)>,
    pub asks: Vec<(u64, u64)>,
    pub timestamp: u64,
    /// Sequence number, for synchronisation.
    pub sequence: u64,
}

/// An error answer.
#[derive(Debug)]
pub struct ErrorResponse {
    pub error: String,
    pub message: String,
}

} // verus!
