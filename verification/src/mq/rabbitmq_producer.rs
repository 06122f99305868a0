//! The producer side of the notification exchange: how a message pushed to the
//! WebSocket clients is routed and ranked, and a producer that counts what it sent.

use vstd::prelude::*;
use crate::outside::{new_uuid_string, system_now, unix_time_millis};
use crate::text::join3;

verus! {

/// The kinds of message pushed to WebSocket clients.
#[derive(Debug, Clone, Copy, PartialEq, Eq, Structural)]
pub enum WebSocketMessageKind {
    Execution,
    OrderBookDelta,
    OrderBookSnapshot,
    OrderBookUpdate,
    MarketStatistics,
    CandlestickUpdate,
    SyncResponse,
    Error,
}

/// The message type of a kind: "execution", "orderbook_delta", ...
pub open spec fn message_type_name(k: WebSocketMessageKind) -> Seq<char> {
    match k {
        WebSocketMessageKind::Execution => "execution"@,
        WebSocketMessageKind::OrderBookDelta => "orderbook_delta"@,
        WebSocketMessageKind::OrderBookSnapshot => "orderbook_snapshot"@,
        WebSocketMessageKind::OrderBookUpdate => "orderbook_update"@,
        WebSocketMessageKind::MarketStatistics => "market_statistics"@,
        WebSocketMessageKind::CandlestickUpdate => "candlestick_update"@,
        WebSocketMessageKind::SyncResponse => "sync_response"@,
        WebSocketMessageKind::Error => "error"@,
    }
}

/// The priority of a message type, 0 the most urgent: errors 0, executions and sync
/// responses 1, order book deltas 2, snapshots 3, statistics 4, candles 5, anything
/// else 6.
pub open spec fn priority_of(t: Seq<char>) -> u8 {
    if t == "execution"@ { 1 }
    else if t == "orderbook_delta"@ { 2 }
    else if t == "orderbook_snapshot"@ { 3 }
    else if t == "market_statistics"@ { 4 }
    else if t == "candlestick_update"@ { 5 }
    else if t == "sync_response"@ { 1 }
    else if t == "error"@ { 0 }
    else { 6 }
}

/// The routing key of a message of kind `k` about `symbol`, and whether the message
/// keeps the symbol: "execution.<s>", "orderbook.delta.<s>", "orderbook.snapshot.<s>",
/// "market.stats.<s>", "candlestick.<s>", "sync.response.<s>"; "error.general" for
/// errors and "general.notification" for the rest, both without symbol.
pub open spec fn routing_of(k: WebSocketMessageKind, symbol: Seq<char>) -> (Seq<char>, bool) {
    match k {
        WebSocketMessageKind::Execution => ("execution."@ + symbol, true),
        WebSocketMessageKind::OrderBookDelta => ("orderbook.delta."@ + symbol, true),
        WebSocketMessageKind::OrderBookSnapshot => ("orderbook.snapshot."@ + symbol, true),
        WebSocketMessageKind::MarketStatistics => ("market.stats."@ + symbol, true),
        WebSocketMessageKind::CandlestickUpdate => ("candlestick."@ + symbol, true),
        WebSocketMessageKind::SyncResponse => ("sync.response."@ + symbol, true),
        WebSocketMessageKind::Error => ("error.general"@, false),
        WebSocketMessageKind::OrderBookUpdate => ("general.notification"@, false),
    }
}

/// The message type of a kind.
pub fn get_message_type(kind: WebSocketMessageKind) -> (r: String)
    ensures
        r@ == message_type_name(kind),
{
    match kind {
        WebSocketMessageKind::Execution => String::from_str("execution"),
        WebSocketMessageKind::OrderBookDelta => String::from_str("orderbook_delta"),
        WebSocketMessageKind::OrderBookSnapshot => String::from_str("orderbook_snapshot"),
        WebSocketMessageKind::OrderBookUpdate => String::from_str("orderbook_update"),
        WebSocketMessageKind::MarketStatistics => String::from_str("market_statistics"),
        WebSocketMessageKind::CandlestickUpdate => String::from_str("candlestick_update"),
        WebSocketMessageKind::SyncResponse => String::from_str("sync_response"),
        WebSocketMessageKind::Error => String::from_str("error"),
    }
}

fn same_text(a: &str, b: &str) -> (r: bool)
    ensures
        r == (a@ == b@),
{
    String::from_str(a) == String::from_str(b)
}

/// The priority of a message type (see `priority_of`).
pub fn get_priority_for_message_type(message_type: &str) -> (r: u8)
    ensures
        r == priority_of(message_type@),
{
    if same_text(message_type, "execution") { 1 }
    else if same_text(message_type, "orderbook_delta") { 2 }
    else if same_text(message_type, "orderbook_snapshot") { 3 }
    else if same_text(message_type, "market_statistics") { 4 }
    else if same_text(message_type, "candlestick_update") { 5 }
    else if same_text(message_type, "sync_response") { 1 }
    else if same_text(message_type, "error") { 0 }
    else { 6 }
}

/// A notification on its way to the WebSocket servers.
#[derive(Debug)]
pub struct WebSocketNotificationMessage {
    pub message_id: String,
    pub routing_key: String,
    pub message_type: String,
    pub symbol: Option<String>,
    pub user_id: Option<String>,
    /// The message itself, as JSON.
    pub data: serde_json::Value,
    pub timestamp: u64,
    /// 0 (urgent) to 9 (low).
    pub priority: u8,
}

/// Whether `m` is the notification of a message of kind `kind` about `symbol` with
/// body `data`: routed and ranked by its kind, with no user.
pub open spec fn notification_of(m: WebSocketNotificationMessage, kind: WebSocketMessageKind, symbol: Seq<char>,
    data: serde_json::Value) -> bool {
    let (key, keeps) = routing_of(kind, symbol);
    &&& m.message_id@.len() == 36
    &&& m.routing_key@ == key
    &&& m.message_type@ == message_type_name(kind)
    &&& (m.symbol is Some) == keeps
    &&& m.symbol matches Some(s) ==> s@ == symbol
    &&& m.user_id is None
    &&& m.data == data
    &&& m.priority == priority_of(message_type_name(kind))
}

impl WebSocketNotificationMessage {
    /// The notification of a message of kind `kind` about `symbol` with body `data`,
    /// with a fresh id and the current time.
    pub fn from_message(kind: WebSocketMessageKind, symbol: &str, data: serde_json::Value) -> (r: Self)
        ensures
            notification_of(r, kind, symbol@, data),
    {
        let (routing_key, keeps) = match kind {
            WebSocketMessageKind::Execution => (join3("execution.", symbol, ""), true),
            WebSocketMessageKind::OrderBookDelta => (join3("orderbook.delta.", symbol, ""), true),
            WebSocketMessageKind::OrderBookSnapshot => (join3("orderbook.snapshot.", symbol, ""), true),
            WebSocketMessageKind::MarketStatistics => (join3("market.stats.", symbol, ""), true),
            WebSocketMessageKind::CandlestickUpdate => (join3("candlestick.", symbol, ""), true),
            WebSocketMessageKind::SyncResponse => (join3("sync.response.", symbol, ""), true),
            WebSocketMessageKind::Error => (String::from_str("error.general"), false),
            WebSocketMessageKind::OrderBookUpdate => (String::from_str("general.notification"), false),
        };
        proof {
            reveal_strlit("");
            assert(routing_key@ =~= routing_of(kind, symbol@).0);
        }
        let message_type = get_message_type(kind);
        let priority = get_priority_for_message_type(message_type.as_str());
        WebSocketNotificationMessage {
            message_id: new_uuid_string(),
            routing_key,
            message_type,
            symbol: if keeps { Some(String::from_str(symbol)) } else { None },
            user_id: None,
            data,
            timestamp: unix_time_millis(),
            priority,
        }
    }

    /// The routing key for one user: "user.<user>.<type>.<symbol>", or
    /// "user.<user>.<type>" without symbol.
    pub fn with_user_routing(&self, user_id: &str) -> (r: String)
        ensures
            r@ == match self.symbol {
                Some(s) => "user."@ + user_id@ + "."@ + self.message_type@ + "."@ + s@,
                None => "user."@ + user_id@ + "."@ + self.message_type@,
            },
    {
        let head = join3("user.", user_id, ".");
        match &self.symbol {
            Some(s) => {
                let mid = join3(head.as_str(), self.message_type.as_str(), ".");
                let r = join3(mid.as_str(), s.as_str(), "");
                proof {
                    reveal_strlit("");
                    assert(r@ =~= "user."@ + user_id@ + "."@ + self.message_type@ + "."@ + s@);
                }
                r
            },
            None => {
                let r = join3(head.as_str(), self.message_type.as_str(), "");
                proof {
                    reveal_strlit("");
                    assert(r@ =~= "user."@ + user_id@ + "."@ + self.message_type@);
                }
                r
            },
        }
    }

    /// The routing key by symbol: "symbol.<symbol>.<type>", or the message's own key
    /// without symbol.
    pub fn with_symbol_routing(&self) -> (r: String)
        ensures
            r@ == match self.symbol {
                Some(s) => "symbol."@ + s@ + "."@ + self.message_type@,
                None => self.routing_key@,
            },
    {
        match &self.symbol {
            Some(s) => {
                let head = join3("symbol.", s.as_str(), ".");
                let r = join3(head.as_str(), self.message_type.as_str(), "");
                proof {
                    reveal_strlit("");
                    assert(r@ =~= "symbol."@ + s@ + "."@ + self.message_type@);
                }
                r
            },
            None => self.routing_key.clone(),
        }
    }
}

/// What can go wrong when publishing.
#[derive(Debug)]
pub enum RabbitMQError {
    ConnectionError(String),
    SerializationError(String),
    PublishError(String),
    ExchangeError(String),
}

impl RabbitMQError {
    /// The error as text: "Connection error: ..", "Serialization error: ..",
    /// "Publish error: .." or "Exchange error: ..".
    pub fn to_string(&self) -> (r: String)
        ensures
            r@ == match self {
                RabbitMQError::ConnectionError(m) => "Connection error: "@ + m@,
                RabbitMQError::SerializationError(m) => "Serialization error: "@ + m@,
                RabbitMQError::PublishError(m) => "Publish error: "@ + m@,
                RabbitMQError::ExchangeError(m) => "Exchange error: "@ + m@,
            },
    {
        let (head, m) = match self {
            RabbitMQError::ConnectionError(m) => ("Connection error: ", m),
            RabbitMQError::SerializationError(m) => ("Serialization error: ", m),
            RabbitMQError::PublishError(m) => ("Publish error: ", m),
            RabbitMQError::ExchangeError(m) => ("Exchange error: ", m),
        };
        let mut s = String::from_str(head);
        s.append(m.as_str());
        s
    }
}

/// The producer's counters.
#[derive(Debug)]
pub struct ProducerStats {
    pub exchange_name: String,
    pub messages_sent: u64,
    pub last_send_time: std::time::SystemTime,
}

/// A producer of one exchange; it counts the messages it sent.
pub struct RabbitMQProducer {
    exchange_name: String,
    messages_sent: u64,
}

impl RabbitMQProducer {
    /// The exchange written to.
    pub closed spec fn exchange(&self) -> Seq<char> {
        self.exchange_name@
    }

    /// The number of messages sent so far.
    pub closed spec fn sent(&self) -> u64 {
        self.messages_sent
    }

    /// A producer of `exchange_name` that has sent nothing; it always succeeds.
    pub fn new(rabbitmq_url: &str, exchange_name: &str) -> (r: Result<Self, RabbitMQError>)
        ensures
            r matches Ok(p) && p.exchange() == exchange_name@ && p.sent() == 0,
    {
        Ok(RabbitMQProducer { exchange_name: String::from_str(exchange_name), messages_sent: 0 })
    }

    /// Publishes the notification of a message of kind `kind` about `symbol` with body
    /// `data`, routed by its kind; answers its id.
    pub fn publish_websocket_message(&mut self, kind: WebSocketMessageKind, symbol: &str, data: serde_json::Value)
        -> (r: Result<String, RabbitMQError>)
        requires
            old(self).sent() < u64::MAX,
        ensures
            r matches Ok(id) && id@.len() == 36,
            final(self).sent() == old(self).sent() + 1,
            final(self).exchange() == old(self).exchange(),
    {
        let notification = WebSocketNotificationMessage::from_message(kind, symbol, data);
        self.messages_sent = self.messages_sent + 1;
        Ok(notification.message_id)
    }

    /// Publishes the notification for user `user_id`, routed by `with_user_routing`;
    /// answers the notification sent.
    pub fn publish_user_message(&mut self, kind: WebSocketMessageKind, symbol: &str, data: serde_json::Value,
        user_id: &str) -> (r: Result<WebSocketNotificationMessage, RabbitMQError>)
        requires
            old(self).sent() < u64::MAX,
        ensures
            r matches Ok(m) && ({
                let (key, keeps) = routing_of(kind, symbol@);
                &&& m.message_id@.len() == 36
                &&& m.message_type@ == message_type_name(kind)
                &&& m.routing_key@ == if keeps {
                    "user."@ + user_id@ + "."@ + message_type_name(kind) + "."@ + symbol@
                } else {
                    "user."@ + user_id@ + "."@ + message_type_name(kind)
                }
                &&& m.user_id matches Some(u) && u@ == user_id@
                &&& m.data == data
            }),
            final(self).sent() == old(self).sent() + 1,
            final(self).exchange() == old(self).exchange(),
    {
        let mut notification = WebSocketNotificationMessage::from_message(kind, symbol, data);
        notification.routing_key = notification.with_user_routing(user_id);
        notification.user_id = Some(String::from_str(user_id));
        self.messages_sent = self.messages_sent + 1;
        Ok(notification)
    }

    /// Publishes the notification routed by `with_symbol_routing`; answers the
    /// notification sent.
    pub fn publish_symbol_message(&mut self, kind: WebSocketMessageKind, symbol: &str, data: serde_json::Value)
        -> (r: Result<WebSocketNotificationMessage, RabbitMQError>)
        requires
            old(self).sent() < u64::MAX,
        ensures
            r matches Ok(m) && ({
                let (key, keeps) = routing_of(kind, symbol@);
                &&& m.message_id@.len() == 36
                &&& m.message_type@ == message_type_name(kind)
                &&& m.routing_key@ == if keeps {
                    "symbol."@ + symbol@ + "."@ + message_type_name(kind)
                } else {
                    key
                }
                &&& m.user_id is None
                &&& m.data == data
            }),
            final(self).sent() == old(self).sent() + 1,
            final(self).exchange() == old(self).exchange(),
    {
        let mut notification = WebSocketNotificationMessage::from_message(kind, symbol, data);
        notification.routing_key = notification.with_symbol_routing();
        self.messages_sent = self.messages_sent + 1;
        Ok(notification)
    }

    /// Publishes a batch: as many messages sent as there are in it, and their number is
    /// answered (0, and nothing sent, for an empty batch).
    pub fn publish_batch_messages(&mut self, messages: &Vec<WebSocketNotificationMessage>) -> (r: Result<usize, RabbitMQError>)
        requires
            old(self).sent() + messages.len() <= u64::MAX,
        ensures
            r == Ok::<usize, RabbitMQError>(messages.len()),
            final(self).sent() == old(self).sent() + messages.len(),
            final(self).exchange() == old(self).exchange(),
    {
        if messages.len() == 0 {
            return Ok(0);
        }
        self.messages_sent = self.messages_sent + messages.len() as u64;
        Ok(messages.len())
    }

    /// The exchange and the number of messages sent, stamped with the current time.
    pub fn get_producer_stats(&self) -> (r: Result<ProducerStats, RabbitMQError>)
        ensures
            r matches Ok(s) && s.exchange_name@ == self.exchange() && s.messages_sent == self.sent(),
    {
        Ok(ProducerStats {
            exchange_name: self.exchange_name.clone(),
            messages_sent: self.messages_sent,
            last_send_time: system_now(),
        })
    }

    /// Sets up the topic exchange; always succeeds.
    pub fn setup_exchange(&self) -> (r: Result<(), RabbitMQError>)
        ensures
            r is Ok,
    {
        Ok(())
    }

    /// Sets up the dead letter queue "<exchange>.dlq"; always succeeds.
    pub fn setup_dead_letter_queue(&self) -> (r: Result<(), RabbitMQError>)
        ensures
            r is Ok,
    {
        Ok(())
    }
}

} // verus!
