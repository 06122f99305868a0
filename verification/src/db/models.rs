//! The rows of the tables: executions, orders, balances and the audit log.

use vstd::prelude::*;

verus! {

/// A stored execution.
#[derive(Debug)]
pub struct ExecutionRecord {
    pub exec_id: String,
    pub taker_order_id: String,
    pub maker_order_id: String,
    pub symbol: String,
    pub side: String,
    pub price: i64,
    pub quantity: i64,
    pub taker_fee: i64,
    pub maker_fee: i64,
    pub transaction_time: i64,
}

impl Clone for ExecutionRecord {
    fn clone(&self) -> (r: Self)
        ensures
            r == *self,
    {
        ExecutionRecord {
            exec_id: self.exec_id.clone(),
            taker_order_id: self.taker_order_id.clone(),
            maker_order_id: self.maker_order_id.clone(),
            symbol: self.symbol.clone(),
            side: self.side.clone(),
            price: self.price,
            quantity: self.quantity,
            taker_fee: self.taker_fee,
            maker_fee: self.maker_fee,
            transaction_time: self.transaction_time,
        }
    }
}

/// A stored order.
#[derive(Debug)]
pub struct OrderRecord {
    pub order_id: String,
    pub client_id: String,
    pub symbol: String,
    pub side: String,
    pub order_type: String,
    pub price: Option<i64>,
    pub quantity: i64,
    pub filled_quantity: i64,
    pub status: String,
}

/// A stored balance of one asset of one client.
#[derive(Debug)]
pub struct BalanceRecord {
    pub client_id: String,
    pub asset: String,
    pub available: i64,
    pub locked: i64,
}

/// A stored audit event.
#[derive(Debug)]
pub struct AuditLog {
    pub id: Option<i64>,
    pub event_type: String,
    pub entity_type: String,
    pub entity_id: String,
    pub details: Option<String>,
}

} // verus!
