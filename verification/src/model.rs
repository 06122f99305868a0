//! Orders, their direction and type, execution reports and order book snapshots.

use vstd::prelude::*;
use crate::outside::{unix_time_secs};

verus! {

/// Direction of an order.
#[derive(Debug, Clone, Copy, PartialEq, Eq, Structural)]
pub enum Side {
    /// Buy order.
    Buy,
    /// Sell order.
    Sell,
}

/// Type of an order.
#[derive(Debug, Clone, Copy, PartialEq, Eq, Structural)]
pub enum OrderType {
    /// Executes against whatever the opposite side offers.
    Market,
    /// Executes only at its limit price or better.
    Limit,
}

/// An order sent to the engine.
#[derive(Debug)]
pub struct Order {
    /// Unique order id.
    pub id: String,
    /// Traded symbol, such as "BTC-KRW".
    pub symbol: String,
    /// Buy or sell.
    pub side: Side,
    /// Market or limit.
    pub order_type: OrderType,
    /// Limit price (meaningful for limit orders only).
    pub price: u64,
    /// Original quantity.
    pub quantity: u64,
    /// Quantity not yet executed.
    pub remaining_quantity: u64,
    /// Client id.
    pub client_id: String,
    /// Creation time in seconds since the Unix epoch.
    pub timestamp: u64,
    /// Whether this is a cancel request.
    pub is_cancel: bool,
    /// The order that a cancel request targets.
    pub target_order_id: Option<String>,
}

/// The id of a cancel request for `target`: "cancel-" followed by the target id.
pub open spec fn cancel_id_of(target: Seq<char>) -> Seq<char> {
    "cancel-"@ + target
}

/// The order after `quantity` of it has executed: the remaining quantity drops by
/// `quantity`, and stops at zero.
pub open spec fn filled_by(o: Order, quantity: u64) -> Order {
    Order {
        remaining_quantity: if o.remaining_quantity >= quantity {
            (o.remaining_quantity - quantity) as u64
        } else {
            0
        },
        ..o
    }
}

fn clone_opt_string(s: &Option<String>) -> (r: Option<String>)
    ensures
        r == *s,
{
    match s {
        Some(v) => Some(v.clone()),
        None => None,
    }
}

impl Clone for Order {
    fn clone(&self) -> (r: Self)
        ensures
            r == *self,
    {
        Order {
            id: self.id.clone(),
            symbol: self.symbol.clone(),
            side: self.side,
            order_type: self.order_type,
            price: self.price,
            quantity: self.quantity,
            remaining_quantity: self.remaining_quantity,
            client_id: self.client_id.clone(),
            timestamp: self.timestamp,
            is_cancel: self.is_cancel,
            target_order_id: clone_opt_string(&self.target_order_id),
        }
    }
}

/// A new, unexecuted order stamped with `now`: nothing executed yet, no cancel target.
pub open spec fn fresh_order(
    id: String,
    symbol: String,
    side: Side,
    order_type: OrderType,
    price: u64,
    quantity: u64,
    client_id: String,
    now: u64,
) -> Order {
    Order {
        id,
        symbol,
        side,
        order_type,
        price,
        quantity,
        remaining_quantity: quantity,
        client_id,
        timestamp: now,
        is_cancel: false,
        target_order_id: None,
    }
}

impl Order {
    /// A new, unexecuted order stamped with `now` (seconds since the Unix epoch).
    pub fn new_at(
        id: String,
        symbol: String,
        side: Side,
        order_type: OrderType,
        price: u64,
        quantity: u64,
        client_id: String,
        now: u64,
    ) -> (r: Self)
        ensures
            r == fresh_order(id, symbol, side, order_type, price, quantity, client_id, now),
    {
        Order {
            id,
            symbol,
            side,
            order_type,
            price,
            quantity,
            remaining_quantity: quantity,
            client_id,
            timestamp: now,
            is_cancel: false,
            target_order_id: None,
        }
    }

    /// A new, unexecuted order stamped with the current time (see `new_at`).
    pub fn new(
        id: String,
        symbol: String,
        side: Side,
        order_type: OrderType,
        price: u64,
        quantity: u64,
        client_id: String,
    ) -> (r: Self)
        ensures
            exists|now: u64| r == #[trigger] fresh_order(id, symbol, side, order_type, price, quantity, client_id, now),
    {
        let now = unix_time_secs();
        Self::new_at(id, symbol, side, order_type, price, quantity, client_id, now)
    }

    /// A cancel request for the order `target_order_id`, stamped with the current time.
    pub fn new_cancel(target_order_id: String) -> (r: Self)
        ensures
            r.id@ == cancel_id_of(target_order_id@),
            r.symbol@ == Seq::<char>::empty(),
            r.side == Side::Buy,
            r.order_type == OrderType::Market,
            r.price == 0,
            r.quantity == 0,
            r.remaining_quantity == 0,
            r.client_id@ == "system"@,
            r.is_cancel,
            r.target_order_id == Some(target_order_id),
    {
        let now = unix_time_secs();
        let mut id = String::from_str("cancel-");
        id.append(target_order_id.as_str());
        Order {
            id,
            symbol: String::new(),
            side: Side::Buy,
            order_type: OrderType::Market,
            price: 0,
            quantity: 0,
            remaining_quantity: 0,
            client_id: String::from_str("system"),
            timestamp: now,
            is_cancel: true,
            target_order_id: Some(target_order_id),
        }
    }

    /// Records the execution of `quantity`: the remaining quantity drops by it,
    /// stopping at zero.
    pub fn fill(&mut self, quantity: u64)
        ensures
            *final(self) == filled_by(*old(self), quantity),
    {
        self.remaining_quantity = self.remaining_quantity.saturating_sub(quantity);
    }

    /// Whether nothing remains to execute.
    pub fn is_filled(&self) -> (r: bool)
        ensures
            r == (self.remaining_quantity == 0),
    {
        self.remaining_quantity == 0
    }
}

/// Report of one execution (or of a cancellation) for one order.
#[derive(Debug)]
pub struct ExecutionReport {
    /// Execution id, shared by the two reports of one trade.
    pub execution_id: String,
    /// The order this report is about.
    pub order_id: String,
    /// Symbol.
    pub symbol: String,
    /// Side of the order this report is about.
    pub side: Side,
    /// Execution price.
    pub price: u64,
    /// Executed quantity.
    pub quantity: u64,
    /// What remains of the order after the execution.
    pub remaining_quantity: u64,
    /// Time of the execution in seconds since the Unix epoch.
    pub timestamp: u64,
    /// The other order of the trade ("system" for a cancellation).
    pub counterparty_id: String,
    /// Whether the order this report is about was resting in the book.
    pub is_maker: bool,
}

impl Clone for ExecutionReport {
    fn clone(&self) -> (r: Self)
        ensures
            r == *self,
    {
        ExecutionReport {
            execution_id: self.execution_id.clone(),
            order_id: self.order_id.clone(),
            symbol: self.symbol.clone(),
            side: self.side,
            price: self.price,
            quantity: self.quantity,
            remaining_quantity: self.remaining_quantity,
            timestamp: self.timestamp,
            counterparty_id: self.counterparty_id.clone(),
            is_maker: self.is_maker,
        }
    }
}

/// A depth-limited view of an order book: (price, total remaining quantity) per
/// level, bids best (highest) first, asks best (lowest) first.
#[derive(Debug)]
pub struct OrderBookSnapshot {
    /// Symbol.
    pub symbol: String,
    /// Bid levels.
    pub bids: Vec<(u64, u64)>,
    /// Ask levels.
    pub asks: Vec<(u64, u64)>,
}

} // verus!
