//! The consumer side of the notification exchange: a worker that takes notifications
//! in batches and passes on those its routing patterns match, the WebSocket servers
//! with their connection limits, a balancer over them, and the dead letter retries.

use vstd::prelude::*;
use crate::mq::rabbitmq_producer::WebSocketNotificationMessage;
use crate::outside::{system_now, json_object_of_numbers, json_object3};
use crate::routing::{matches_routing_patterns, pattern_matches};
use crate::text::{decimal_of, join3, with_number};

verus! {

/// Settings of a consumer worker.
#[derive(Debug)]
pub struct RabbitMQConsumerConfig {
    pub rabbitmq_url: String,
    pub exchange_name: String,
    pub queue_name: String,
    pub routing_patterns: Vec<String>,
    pub worker_id: String,
    pub batch_size: usize,
    pub processing_interval_ms: u64,
}

/// Whether one of `patterns` matches `key`.
pub open spec fn any_matches(patterns: Seq<String>, key: Seq<char>) -> bool {
    exists|i: int| 0 <= i < patterns.len() && pattern_matches(patterns[i]@, key)
}

/// The symbol of position `index` of a made-up batch: BTC-KRW, ETH-KRW, XRP-KRW in turn.
pub open spec fn mock_symbol(index: u64) -> Seq<char> {
    if index % 3 == 0 { "BTC-KRW"@ } else if index % 3 == 1 { "ETH-KRW"@ } else { "XRP-KRW"@ }
}

/// The message type of position `index`: execution, orderbook_delta,
/// market_statistics, candlestick_update in turn.
pub open spec fn mock_type(index: u64) -> Seq<char> {
    if index % 4 == 0 { "execution"@ }
    else if index % 4 == 1 { "orderbook_delta"@ }
    else if index % 4 == 2 { "market_statistics"@ }
    else { "candlestick_update"@ }
}

/// The notification that a worker without a broker makes up for position `index` at
/// `now_ms`: id "mock_msg_<index>", key "<type>.<symbol>", user
/// "mock_user_<index mod 10>", body price 50000 + 100·index, quantity 100 + 10·index,
/// priority index mod 10.
pub open spec fn mock_notification_ok(m: WebSocketNotificationMessage, index: u64, now_ms: u64) -> bool {
    &&& m.message_id@ == "mock_msg_"@ + decimal_of(index as nat)
    &&& m.routing_key@ == mock_type(index) + "."@ + mock_symbol(index)
    &&& m.message_type@ == mock_type(index)
    &&& m.symbol matches Some(s) && s@ == mock_symbol(index)
    &&& m.user_id matches Some(u) && u@ == "mock_user_"@ + decimal_of((index % 10) as nat)
    &&& m.data == json_object3("price"@, (50000 + index * 100) as u64, "quantity"@, (100 + index * 10) as u64,
        "timestamp"@, now_ms)
    &&& m.timestamp == now_ms
    &&& m.priority == index % 10
}

/// The made-up notification for position `index` at `now_ms`.
pub fn create_mock_message(index: u64, now_ms: u64) -> (r: WebSocketNotificationMessage)
    requires
        index <= 10,
    ensures
        mock_notification_ok(r, index, now_ms),
{
    let symbol = if index % 3 == 0 { "BTC-KRW" } else if index % 3 == 1 { "ETH-KRW" } else { "XRP-KRW" };
    let message_type = if index % 4 == 0 {
        "execution"
    } else if index % 4 == 1 {
        "orderbook_delta"
    } else if index % 4 == 2 {
        "market_statistics"
    } else {
        "candlestick_update"
    };
    proof {
        reveal_strlit("BTC-KRW");
        reveal_strlit("ETH-KRW");
        reveal_strlit("XRP-KRW");
        reveal_strlit("execution");
        reveal_strlit("orderbook_delta");
        reveal_strlit("market_statistics");
        reveal_strlit("candlestick_update");
        assert(symbol@ == mock_symbol(index));
        assert(message_type@ == mock_type(index));
    }
    let routing_key = join3(message_type, ".", symbol);
    WebSocketNotificationMessage {
        message_id: with_number("mock_msg_", index),
        routing_key,
        message_type: String::from_str(message_type),
        symbol: Some(String::from_str(symbol)),
        user_id: Some(with_number("mock_user_", index % 10)),
        data: json_object_of_numbers("price", 50000 + index * 100, "quantity", 100 + index * 10, "timestamp", now_ms),
        timestamp: now_ms,
        priority: (index % 10) as u8,
    }
}

/// A worker bound to one queue; it counts the notifications it processed.
pub struct RabbitMQConsumerWorker {
    exchange_name: String,
    queue_name: String,
    routing_patterns: Vec<String>,
    worker_id: String,
    batch_size: usize,
    processing_interval_ms: u64,
    messages_processed: u64,
    connection_status: bool,
}

impl RabbitMQConsumerWorker {
    /// The number of notifications processed so far.
    pub closed spec fn processed(&self) -> u64 {
        self.messages_processed
    }

    /// Whether the worker is connected.
    pub closed spec fn connected(&self) -> bool {
        self.connection_status
    }

    /// The routing patterns the worker passes on.
    pub closed spec fn patterns(&self) -> Seq<String> {
        self.routing_patterns@
    }

    /// The worker's id.
    pub closed spec fn id(&self) -> Seq<char> {
        self.worker_id@
    }

    /// The exchange read.
    pub closed spec fn exchange(&self) -> Seq<char> {
        self.exchange_name@
    }

    /// A connected worker with the config's settings that processed nothing; it always
    /// succeeds.
    pub fn new(config: RabbitMQConsumerConfig) -> (r: Result<Self, String>)
        ensures
            r matches Ok(w) && w.processed() == 0 && w.connected() && w.patterns() == config.routing_patterns@
                && w.id() == config.worker_id@ && w.exchange() == config.exchange_name@,
    {
        Ok(RabbitMQConsumerWorker {
            exchange_name: config.exchange_name,
            queue_name: config.queue_name,
            routing_patterns: config.routing_patterns,
            worker_id: config.worker_id,
            batch_size: config.batch_size,
            processing_interval_ms: config.processing_interval_ms,
            messages_processed: 0,
            connection_status: true,
        })
    }

    /// The worker's id.
    pub fn worker_id(&self) -> (r: &String)
        ensures
            r@ == self.id(),
    {
        &self.worker_id
    }

    /// The exchange read.
    pub fn exchange_name(&self) -> (r: &String)
        ensures
            r@ == self.exchange(),
    {
        &self.exchange_name
    }

    /// Whether one of the worker's patterns matches `routing_key`.
    pub fn matches_routing_patterns(&self, routing_key: &str) -> (r: bool)
        ensures
            r == any_matches(self.patterns(), routing_key@),
    {
        matches_routing_patterns(&self.routing_patterns, routing_key)
    }

    /// Takes the next batch at `now_ms`: between 1 and 5 notifications (the count mod 5,
    /// plus one), made up as `mock_notification_ok` says for positions 0, 1, ..; each
    /// comes with whether it is passed on to the WebSocket servers, which is when the
    /// worker's patterns match its key. The count grows by the batch's size.
    pub fn process_batch(&mut self, now_ms: u64) -> (r: Vec<(WebSocketNotificationMessage, bool)>)
        requires
            old(self).processed() + 5 <= u64::MAX,
        ensures
            r.len() == old(self).processed() % 5 + 1,
            forall|i: int| 0 <= i < r.len() ==> {
                &&& mock_notification_ok(#[trigger] r@[i].0, i as u64, now_ms)
                &&& r@[i].1 == any_matches(old(self).patterns(), r@[i].0.routing_key@)
            },
            final(self).processed() == old(self).processed() + r.len(),
            final(self).connected() == old(self).connected(),
            final(self).patterns() == old(self).patterns(),
            final(self).id() == old(self).id(),
            final(self).exchange() == old(self).exchange(),
    {
        let n = self.messages_processed % 5 + 1;
        self.messages_processed = self.messages_processed + n;
        let mut out: Vec<(WebSocketNotificationMessage, bool)> = Vec::new();
        let mut i: u64 = 0;
        while i < n
            invariant
                n <= 5,
                i <= n,
                out.len() == i,
                forall|j: int| 0 <= j < i ==> {
                    &&& mock_notification_ok(#[trigger] out@[j].0, j as u64, now_ms)
                    &&& out@[j].1 == any_matches(self.patterns(), out@[j].0.routing_key@)
                },
            decreases n - i,
        {
            let m = create_mock_message(i, now_ms);
            let pass = self.matches_routing_patterns(m.routing_key.as_str());
            out.push((m, pass));
            i = i + 1;
        }
        out
    }

    /// Whether the worker is connected.
    pub fn is_connected(&self) -> (r: bool)
        ensures
            r == self.connected(),
    {
        self.connection_status
    }

    /// Marks the worker connected or not.
    pub fn set_connection_status(&mut self, connected: bool)
        ensures
            final(self).connected() == connected,
            final(self).processed() == old(self).processed(),
            final(self).patterns() == old(self).patterns(),
            final(self).id() == old(self).id(),
            final(self).exchange() == old(self).exchange(),
    {
        self.connection_status = connected;
    }

    /// The number of notifications processed so far.
    pub fn get_processed_count(&self) -> (r: u64)
        ensures
            r == self.processed(),
    {
        self.messages_processed
    }
}

/// A WebSocket server's state.
#[derive(Debug)]
pub struct ServerStatus {
    pub server_id: String,
    pub current_connections: u32,
    pub max_connections: u32,
    pub processed_messages: u64,
    pub is_connected: bool,
    pub last_activity: std::time::SystemTime,
}

/// A WebSocket server fed by a worker, with a limit on its connections.
pub struct WebSocketServerConsumer {
    worker: RabbitMQConsumerWorker,
    server_id: String,
    max_connections: u32,
    current_connections: u32,
}

/// The refusal of a connection over the limit: "최대 연결 수 초과: <n> (최대: <max>)".
pub open spec fn over_limit_message(n: u32, max: u32) -> Seq<char> {
    "최대 연결 수 초과: "@ + decimal_of(n as nat) + " (최대: "@ + decimal_of(max as nat) + ")"@
}

impl WebSocketServerConsumer {
    /// The number of open connections.
    pub closed spec fn connections(&self) -> u32 {
        self.current_connections
    }

    /// The limit on connections.
    pub closed spec fn limit(&self) -> u32 {
        self.max_connections
    }

    /// The server's id.
    pub closed spec fn id(&self) -> Seq<char> {
        self.server_id@
    }

    /// The notifications its worker processed.
    pub closed spec fn processed(&self) -> u64 {
        self.worker.processed()
    }

    /// Whether its worker is connected.
    pub closed spec fn connected(&self) -> bool {
        self.worker.connected()
    }

    /// A server with no connection; fails only when the worker cannot be made.
    pub fn new(config: RabbitMQConsumerConfig, server_id: String, max_connections: u32) -> (r: Result<Self, String>)
        ensures
            r matches Ok(s) && s.connections() == 0 && s.limit() == max_connections && s.id() == server_id@,
    {
        let worker = match RabbitMQConsumerWorker::new(config) {
            Ok(w) => w,
            Err(e) => return Err(e),
        };
        Ok(WebSocketServerConsumer { worker, server_id, max_connections, current_connections: 0 })
    }

    /// Opens a connection when under the limit; otherwise refuses with
    /// `over_limit_message` and nothing changes.
    pub fn increment_connections(&mut self) -> (r: Result<(), String>)
        ensures
            match r {
                Ok(()) => old(self).connections() < old(self).limit()
                    && final(self).connections() == old(self).connections() + 1,
                Err(m) => old(self).connections() >= old(self).limit()
                    && final(self).connections() == old(self).connections()
                    && m@ == over_limit_message(old(self).connections(), old(self).limit()),
            },
            final(self).limit() == old(self).limit(),
            final(self).id() == old(self).id(),
    {
        if self.current_connections < self.max_connections {
            self.current_connections = self.current_connections + 1;
            Ok(())
        } else {
            let a = with_number("최대 연결 수 초과: ", self.current_connections as u64);
            let b = with_number(" (최대: ", self.max_connections as u64);
            let m = join3(a.as_str(), b.as_str(), ")");
            Err(m)
        }
    }

    /// Closes a connection, if there is one.
    pub fn decrement_connections(&mut self)
        ensures
            final(self).connections() == if old(self).connections() > 0 {
                (old(self).connections() - 1) as u32
            } else {
                0
            },
            final(self).limit() == old(self).limit(),
            final(self).id() == old(self).id(),
    {
        if self.current_connections > 0 {
            self.current_connections = self.current_connections - 1;
        }
    }

    /// The number of open connections.
    pub fn get_current_connections(&self) -> (r: u32)
        ensures
            r == self.connections(),
    {
        self.current_connections
    }

    /// The server's id, connections, limit, processed count and link state, stamped
    /// with the current time.
    pub fn get_server_status(&self) -> (r: ServerStatus)
        ensures
            r.server_id@ == self.id(),
            r.current_connections == self.connections(),
            r.max_connections == self.limit(),
            r.processed_messages == self.processed(),
            r.is_connected == self.connected(),
    {
        ServerStatus {
            server_id: self.server_id.clone(),
            current_connections: self.current_connections,
            max_connections: self.max_connections,
            processed_messages: self.worker.get_processed_count(),
            is_connected: self.worker.is_connected(),
            last_activity: system_now(),
        }
    }
}

/// The position of the first server with the fewest connections, among those with
/// fewer than `u32::MAX`; none when there is no such server.
pub open spec fn least_loaded(c: Seq<u32>) -> Option<nat> {
    if exists|i: int| 0 <= i < c.len() && c[i] < u32::MAX {
        Some(choose|i: nat| i < c.len() && c[i as int] < u32::MAX
            && (forall|j: int| 0 <= j < c.len() ==> c[i as int] <= c[j])
            && (forall|j: int| 0 <= j < i ==> c[i as int] < c[j]))
    } else {
        None
    }
}

/// A balancer over WebSocket servers.
pub struct LoadBalancerConsumer {
    workers: Vec<WebSocketServerConsumer>,
    current_index: usize,
}

impl LoadBalancerConsumer {
    /// The open connections of each server.
    pub closed spec fn loads(&self) -> Seq<u32> {
        self.workers@.map_values(|w: WebSocketServerConsumer| w.connections())
    }

    /// The id of each server.
    pub closed spec fn server_ids(&self) -> Seq<Seq<char>> {
        self.workers@.map_values(|w: WebSocketServerConsumer| w.id())
    }

    /// The limit on connections of each server.
    pub closed spec fn limits(&self) -> Seq<u32> {
        self.workers@.map_values(|w: WebSocketServerConsumer| w.limit())
    }

    /// The server the next round-robin pick gives.
    pub closed spec fn next(&self) -> nat {
        self.current_index as nat
    }

    /// The next pick is one of the servers (or there is none).
    pub open spec fn wf(&self) -> bool {
        self.loads().len() == 0 || self.next() < self.loads().len()
    }

    /// A balancer over one server per configuration, in order, with that server's id
    /// and connection limit, none connected, the round robin at the first. (Making a
    /// server never fails, so neither does this.)
    pub fn new(server_configs: Vec<(RabbitMQConsumerConfig, String, u32)>) -> (r: Result<Self, String>)
        ensures
            r matches Ok(b) && b.wf() && b.next() == 0 && b.loads().len() == server_configs.len()
                && b.limits().len() == server_configs.len()
                && (forall|i: int| 0 <= i < b.loads().len() ==> b.loads()[i] == 0)
                && (forall|i: int| 0 <= i < b.loads().len() ==> b.server_ids()[i] == server_configs@[i].1@)
                && (forall|i: int| 0 <= i < b.loads().len() ==> b.limits()[i] == server_configs@[i].2),
    {
        let mut workers: Vec<WebSocketServerConsumer> = Vec::new();
        let mut configs = server_configs;
        let ghost orig = configs@;
        while configs.len() > 0
            invariant
                workers.len() + configs.len() == orig.len(),
                configs@ == orig.skip(workers.len() as int),
                forall|i: int| 0 <= i < workers.len() ==> (#[trigger] workers@[i]).connections() == 0
                    && workers@[i].id() == orig[i].1@ && workers@[i].limit() == orig[i].2,
            decreases configs.len(),
        {
            let ghost k = workers.len();
            let (config, server_id, max_connections) = configs.remove(0);
            proof {
                assert(server_id == orig[k as int].1);
                assert(max_connections == orig[k as int].2);
                assert(configs@ =~= orig.skip(k + 1));
            }
            match WebSocketServerConsumer::new(config, server_id, max_connections) {
                Ok(w) => workers.push(w),
                Err(e) => return Err(e),
            }
        }
        let r = LoadBalancerConsumer { workers, current_index: 0 };
        proof {
            assert(r.loads().len() == orig.len());
            assert(r.limits().len() == orig.len());
        }
        Ok(r)
    }

    /// The servers.
    pub fn servers(&self) -> (r: &Vec<WebSocketServerConsumer>)
        ensures
            r@.map_values(|w: WebSocketServerConsumer| w.connections()) == self.loads(),
    {
        &self.workers
    }

    /// Round robin: the next server's position (none without servers); the pick moves
    /// on by one, back to the first after the last.
    pub fn select_server(&mut self) -> (r: Option<usize>)
        requires
            old(self).wf(),
        ensures
            final(self).wf(),
            final(self).loads() == old(self).loads(),
            final(self).limits() == old(self).limits(),
            final(self).server_ids() == old(self).server_ids(),
            old(self).loads().len() == 0 ==> r is None && final(self).next() == old(self).next(),
            old(self).loads().len() > 0 ==> r == Some(old(self).next() as usize)
                && final(self).next() == (old(self).next() + 1) % old(self).loads().len(),
    {
        if self.workers.len() == 0 {
            return None;
        }
        let selected = self.current_index;
        self.current_index = (self.current_index + 1) % self.workers.len();
        Some(selected)
    }

    /// The position of the least loaded server (see `least_loaded`).
    pub fn select_least_loaded_server(&self) -> (r: Option<usize>)
        ensures
            r matches Some(i) ==> least_loaded(self.loads()) == Some(i as nat),
            r is None ==> least_loaded(self.loads()) is None,
    {
        let ghost c = self.loads();
        let n = self.workers.len();
        let mut min_connections: u32 = u32::MAX;
        let mut selected: Option<usize> = None;
        let mut i: usize = 0;
        while i < n
            invariant
                n == c.len(),
                c == self.loads(),
                i <= n,
                selected is None ==> min_connections == u32::MAX && forall|j: int| 0 <= j < i ==> c[j] == u32::MAX,
                selected matches Some(k) ==> k < i && c[k as int] == min_connections && min_connections < u32::MAX
                    && (forall|j: int| 0 <= j < i ==> min_connections <= c[j])
                    && (forall|j: int| 0 <= j < k ==> min_connections < c[j]),
            decreases n - i,
        {
            let connections = self.workers[i].get_current_connections();
            proof {
                assert(c[i as int] == connections);
            }
            if connections < min_connections {
                min_connections = connections;
                selected = Some(i);
            }
            i = i + 1;
        }
        proof {
            match selected {
                Some(k) => {
                    assert(c[k as int] < u32::MAX);
                    let w = choose|x: nat| x < c.len() && c[x as int] < u32::MAX
                        && (forall|j: int| 0 <= j < c.len() ==> c[x as int] <= c[j])
                        && (forall|j: int| 0 <= j < x ==> c[x as int] < c[j]);
                    assert((k as nat) < c.len() && c[k as int] < u32::MAX
                        && (forall|j: int| 0 <= j < c.len() ==> c[k as int] <= c[j])
                        && (forall|j: int| 0 <= j < k ==> c[k as int] < c[j]));
                    if w < k {
                        assert(c[w as int] < c[k as int]);
                    } else if w > k {
                        assert(c[k as int] < c[k as int]) by {
                            assert(c[w as int] <= c[k as int]);
                        }
                    }
                },
                None => {},
            }
        }
        selected
    }

    /// The state of each server, in order.
    pub fn get_all_server_status(&self) -> (r: Vec<ServerStatus>)
        ensures
            r.len() == self.loads().len(),
            forall|i: int| 0 <= i < r.len() ==> (#[trigger] r@[i]).current_connections == self.loads()[i]
                && r@[i].server_id@ == self.server_ids()[i],
    {
        let mut out: Vec<ServerStatus> = Vec::new();
        let mut i: usize = 0;
        while i < self.workers.len()
            invariant
                i <= self.workers.len(),
                out.len() == i,
                forall|j: int| 0 <= j < i ==> (#[trigger] out@[j]).current_connections == self.loads()[j]
                    && out@[j].server_id@ == self.server_ids()[j],
            decreases self.workers.len() - i,
        {
            out.push(self.workers[i].get_server_status());
            i = i + 1;
        }
        out
    }

    /// Opens a connection on server `i` when it is under its limit; otherwise refuses
    /// with `over_limit_message` and nothing changes (see `increment_connections`).
    pub fn connect(&mut self, i: usize) -> (r: Result<(), String>)
        requires
            i < old(self).loads().len(),
            old(self).wf(),
        ensures
            final(self).wf(),
            final(self).next() == old(self).next(),
            final(self).limits() == old(self).limits(),
            final(self).server_ids() == old(self).server_ids(),
            (r is Ok) == (old(self).loads()[i as int] < old(self).limits()[i as int]),
            match r {
                Ok(()) => final(self).loads() == old(self).loads().update(i as int, (old(self).loads()[i as int] + 1) as u32),
                Err(m) => final(self).loads() == old(self).loads()
                    && m@ == over_limit_message(old(self).loads()[i as int], old(self).limits()[i as int]),
            },
    {
        let mut w = self.workers.remove(i);
        let r = w.increment_connections();
        self.workers.insert(i, w);
        proof {
            let ws = self.workers@.map_values(|w: WebSocketServerConsumer| w.connections());
            assert(self.workers@.map_values(|w: WebSocketServerConsumer| w.limit()) =~= old(self).limits());
            assert(self.workers@.map_values(|w: WebSocketServerConsumer| w.id()) =~= old(self).server_ids());
            match r {
                Ok(()) => assert(ws =~= old(self).loads().update(i as int, (old(self).loads()[i as int] + 1) as u32)),
                Err(_) => assert(ws =~= old(self).loads()),
            }
        }
        r
    }

    /// Closes a connection on server `i` (see `decrement_connections`).
    pub fn disconnect(&mut self, i: usize)
        requires
            i < old(self).loads().len(),
            old(self).wf(),
        ensures
            final(self).wf(),
            final(self).next() == old(self).next(),
            final(self).limits() == old(self).limits(),
            final(self).server_ids() == old(self).server_ids(),
            final(self).loads() == old(self).loads().update(i as int,
                if old(self).loads()[i as int] > 0 { (old(self).loads()[i as int] - 1) as u32 } else { 0u32 }),
    {
        let mut w = self.workers.remove(i);
        w.decrement_connections();
        self.workers.insert(i, w);
        proof {
            let ws = self.workers@.map_values(|w: WebSocketServerConsumer| w.connections());
            assert(ws =~= old(self).loads().update(i as int,
                if old(self).loads()[i as int] > 0 { (old(self).loads()[i as int] - 1) as u32 } else { 0u32 }));
            assert(self.workers@.map_values(|w: WebSocketServerConsumer| w.limit()) =~= old(self).limits());
            assert(self.workers@.map_values(|w: WebSocketServerConsumer| w.id()) =~= old(self).server_ids());
        }
    }
}

/// The refusal once the retries are used up: "최대 재시도 횟수 초과: <max>".
pub open spec fn retries_exhausted_message(max: u32) -> Seq<char> {
    "최대 재시도 횟수 초과: "@ + decimal_of(max as nat)
}

/// The consumer of dead letters, which retries failed notifications up to a limit.
pub struct DeadLetterQueueConsumer {
    worker: RabbitMQConsumerWorker,
    retry_count: u32,
    max_retries: u32,
}

impl DeadLetterQueueConsumer {
    /// The retries made so far.
    pub closed spec fn retries(&self) -> u32 {
        self.retry_count
    }

    /// The limit on retries.
    pub closed spec fn limit(&self) -> u32 {
        self.max_retries
    }

    /// A consumer that retried nothing; fails only when the worker cannot be made.
    pub fn new(config: RabbitMQConsumerConfig, max_retries: u32) -> (r: Result<Self, String>)
        ensures
            r matches Ok(d) && d.retries() == 0 && d.limit() == max_retries,
    {
        let worker = match RabbitMQConsumerWorker::new(config) {
            Ok(w) => w,
            Err(e) => return Err(e),
        };
        Ok(DeadLetterQueueConsumer { worker, retry_count: 0, max_retries })
    }

    /// Retries a failed notification while retries are left (one more is counted);
    /// otherwise refuses with `retries_exhausted_message`.
    pub fn retry_failed_message(&mut self, message: &WebSocketNotificationMessage) -> (r: Result<(), String>)
        ensures
            final(self).limit() == old(self).limit(),
            match r {
                Ok(()) => old(self).retries() < old(self).limit() && final(self).retries() == old(self).retries() + 1,
                Err(m) => old(self).retries() >= old(self).limit() && final(self).retries() == old(self).retries()
                    && m@ == retries_exhausted_message(old(self).limit()),
            },
    {
        if self.retry_count < self.max_retries {
            self.retry_count = self.retry_count + 1;
            Ok(())
        } else {
            Err(with_number("최대 재시도 횟수 초과: ", self.max_retries as u64))
        }
    }
}

/// Round robin is fair: from any starting pick, the next `n` picks over `n` servers visit
/// every server.
pub proof fn law_round_robin_visits_each(n: int, start: int, server: int)
    requires
        0 <= start < n,
        0 <= server < n,
    ensures
        exists|j: int| 0 <= j < n && #[trigger] ((start + j) % n) == server,
{
    if server >= start {
        let j = server - start;
        vstd::arithmetic::div_mod::lemma_small_mod(server as nat, n as nat);
        assert((start + j) % n == server);
    } else {
        let j = server + n - start;
        assert(start + j == server + n);
        vstd::arithmetic::div_mod::lemma_mod_add_multiples_vanish(server, n);
        vstd::arithmetic::div_mod::lemma_small_mod(server as nat, n as nat);
        assert((start + j) % n == server);
    }
}

} // verus!
