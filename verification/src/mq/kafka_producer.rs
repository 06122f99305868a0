//! The producer side of the market data topic: the message built from an execution,
//! the update and statistics messages, and a producer that counts what it sent.

use vstd::prelude::*;
use crate::model::{ExecutionReport, Side};
use crate::outside::system_now;

verus! {

/// The name of a side, as its `Debug` form writes it.
pub open spec fn side_name(s: Side) -> Seq<char> {
    match s {
        Side::Buy => "Buy"@,
        Side::Sell => "Sell"@,
    }
}

/// "Buy" or "Sell".
pub fn side_to_string(side: &Side) -> (r: String)
    ensures
        r@ == side_name(*side),
{
    match side {
        Side::Buy => String::from_str("Buy"),
        Side::Sell => String::from_str("Sell"),
    }
}

/// A market data message about one execution.
#[derive(Debug)]
pub struct MarketDataMessage {
    pub execution_id: String,
    pub symbol: String,
    pub side: String,
    pub price: u64,
    pub quantity: u64,
    pub timestamp: u64,
    pub order_id: String,
    pub user_id: String,
    /// "execution", "orderbook_update" or "market_statistics".
    pub message_type: String,
}

impl Clone for MarketDataMessage {
    fn clone(&self) -> (r: Self)
        ensures
            r == *self,
    {
        MarketDataMessage {
            execution_id: self.execution_id.clone(),
            symbol: self.symbol.clone(),
            side: self.side.clone(),
            price: self.price,
            quantity: self.quantity,
            timestamp: self.timestamp,
            order_id: self.order_id.clone(),
            user_id: self.user_id.clone(),
            message_type: self.message_type.clone(),
        }
    }
}

impl MarketDataMessage {
    /// The execution message of a report: its ids, symbol, side name, price, quantity
    /// and time, a placeholder user ("user_placeholder") and the type "execution".
    pub fn from_report(report: &ExecutionReport) -> (r: Self)
        ensures
            r.execution_id == report.execution_id,
            r.symbol == report.symbol,
            r.side@ == side_name(report.side),
            r.price == report.price,
            r.quantity == report.quantity,
            r.timestamp == report.timestamp,
            r.order_id == report.order_id,
            r.user_id@ == "user_placeholder"@,
            r.message_type@ == "execution"@,
    {
        MarketDataMessage {
            execution_id: report.execution_id.clone(),
            symbol: report.symbol.clone(),
            side: side_to_string(&report.side),
            price: report.price,
            quantity: report.quantity,
            timestamp: report.timestamp,
            order_id: report.order_id.clone(),
            user_id: String::from_str("user_placeholder"),
            message_type: String::from_str("execution"),
        }
    }
}

/// What can go wrong when producing.
#[derive(Debug)]
pub enum KafkaError {
    ConnectionError(String),
    SerializationError(String),
    SendError(String),
}

impl KafkaError {
    /// The error as text: "Connection error: ..", "Serialization error: .." or
    /// "Send error: ..".
    pub fn to_string(&self) -> (r: String)
        ensures
            r@ == match self {
                KafkaError::ConnectionError(m) => "Connection error: "@ + m@,
                KafkaError::SerializationError(m) => "Serialization error: "@ + m@,
                KafkaError::SendError(m) => "Send error: "@ + m@,
            },
    {
        let (head, m) = match self {
            KafkaError::ConnectionError(m) => ("Connection error: ", m),
            KafkaError::SerializationError(m) => ("Serialization error: ", m),
            KafkaError::SendError(m) => ("Send error: ", m),
        };
        let mut s = String::from_str(head);
        s.append(m.as_str());
        s
    }
}

/// An order book update message.
#[derive(Debug)]
pub struct OrderBookUpdateMessage {
    pub symbol: String,
    pub timestamp: u64,
    pub message_type: String,
    pub bids: Vec<(u64, u64)>,
    pub asks: Vec<(u64, u64)>,
    pub sequence: u64,
}

/// The producer's counters.
#[derive(Debug)]
pub struct ProducerStats {
    pub topic_name: String,
    pub messages_sent: u64,
    pub last_send_time: std::time::SystemTime,
}

/// A producer of one topic; it counts the messages it sent.
pub struct KafkaProducer {
    topic_name: String,
    messages_sent: u64,
}

impl KafkaProducer {
    /// The topic the producer writes to.
    pub closed spec fn topic(&self) -> Seq<char> {
        self.topic_name@
    }

    /// The number of messages sent so far.
    pub closed spec fn sent(&self) -> u64 {
        self.messages_sent
    }

    /// A producer of `topic_name` that has sent nothing; it always succeeds.
    pub fn new(kafka_brokers: &Vec<String>, topic_name: &str) -> (r: Result<Self, KafkaError>)
        ensures
            r matches Ok(p) && p.topic() == topic_name@ && p.sent() == 0,
    {
        Ok(KafkaProducer { topic_name: String::from_str(topic_name), messages_sent: 0 })
    }

    /// Publishes the execution message of `execution`: one more message sent.
    pub fn publish_execution(&mut self, execution: &ExecutionReport) -> (r: Result<(), KafkaError>)
        requires
            old(self).sent() < u64::MAX,
        ensures
            r is Ok,
            final(self).sent() == old(self).sent() + 1,
            final(self).topic() == old(self).topic(),
    {
        self.messages_sent = self.messages_sent + 1;
        Ok(())
    }

    /// Publishes a batch of executions: as many messages sent as there are executions,
    /// and their number is answered (0, and nothing sent, for an empty batch).
    pub fn publish_executions_batch(&mut self, executions: &Vec<ExecutionReport>) -> (r: Result<usize, KafkaError>)
        requires
            old(self).sent() + executions.len() <= u64::MAX,
        ensures
            r == Ok::<usize, KafkaError>(executions.len()),
            final(self).sent() == old(self).sent() + executions.len(),
            final(self).topic() == old(self).topic(),
    {
        if executions.len() == 0 {
            return Ok(0);
        }
        self.messages_sent = self.messages_sent + executions.len() as u64;
        Ok(executions.len())
    }

    /// Publishes the market statistics of `symbol`: one more message sent.
    pub fn publish_market_statistics(&mut self, symbol: &str) -> (r: Result<(), KafkaError>)
        requires
            old(self).sent() < u64::MAX,
        ensures
            r is Ok,
            final(self).sent() == old(self).sent() + 1,
            final(self).topic() == old(self).topic(),
    {
        self.messages_sent = self.messages_sent + 1;
        Ok(())
    }

    /// Publishes an order book update of `symbol`: one more message sent.
    pub fn publish_orderbook_update(&mut self, symbol: &str, orderbook: &OrderBookUpdateMessage) -> (r: Result<(), KafkaError>)
        requires
            old(self).sent() < u64::MAX,
        ensures
            r is Ok,
            final(self).sent() == old(self).sent() + 1,
            final(self).topic() == old(self).topic(),
    {
        self.messages_sent = self.messages_sent + 1;
        Ok(())
    }

    /// The topic and the number of messages sent, stamped with the current time.
    pub fn get_producer_stats(&self) -> (r: Result<ProducerStats, KafkaError>)
        ensures
            r matches Ok(s) && s.topic_name@ == self.topic() && s.messages_sent == self.sent(),
    {
        Ok(ProducerStats {
            topic_name: self.topic_name.clone(),
            messages_sent: self.messages_sent,
            last_send_time: system_now(),
        })
    }
}

} // verus!
