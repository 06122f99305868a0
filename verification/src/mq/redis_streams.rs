//! The message written to the executions stream, and the settings of its consumers.

use vstd::prelude::*;
use crate::model::ExecutionReport;
use crate::mq::kafka_producer::{side_name, side_to_string};

verus! {

/// An execution as written to the stream.
#[derive(Debug)]
pub struct ExecutionMessage {
    pub execution_id: String,
    pub symbol: String,
    pub side: String,
    pub price: u64,
    pub quantity: u64,
    pub timestamp: u64,
    pub order_id: String,
    pub user_id: String,
}

impl ExecutionMessage {
    /// The stream message of a report: its ids, symbol, side name, price, quantity and
    /// time, with a placeholder user ("user_placeholder").
    pub fn from_report(report: &ExecutionReport) -> (r: Self)
        ensures
            r.execution_id == report.execution_id,
            r.symbol == report.symbol,
            r.side@ == side_name(report.side),
            r.price == report.price,
            r.quantity == report.quantity,
            r.timestamp == report.timestamp,
            r.order_id == report.order_id,
            r.user_id@ == "user_placeholder"@,
    {
        ExecutionMessage {
            execution_id: report.execution_id.clone(),
            symbol: report.symbol.clone(),
            side: side_to_string(&report.side),
            price: report.price,
            quantity: report.quantity,
            timestamp: report.timestamp,
            order_id: report.order_id.clone(),
            user_id: String::from_str("user_placeholder"),
        }
    }
}

/// Settings of a stream consumer worker.
#[derive(Debug)]
pub struct ConsumerConfig {
    pub redis_url: String,
    pub stream_name: String,
    pub consumer_group: String,
    pub worker_id: String,
    pub batch_size: usize,
    pub processing_interval_ms: u64,
}

} // verus!
