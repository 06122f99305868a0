//! The consumer side of the market data topic: a worker that takes messages in
//! batches, and the checks the consumers make on each trade.

use vstd::prelude::*;
use crate::mq::kafka_producer::MarketDataMessage;
use crate::text::{decimal_of, with_number};

verus! {

/// Settings of a consumer worker.
#[derive(Debug)]
pub struct KafkaConsumerConfig {
    pub kafka_brokers: Vec<String>,
    pub topic_name: String,
    pub consumer_group: String,
    pub worker_id: String,
    pub batch_size: usize,
    pub processing_interval_ms: u64,
}

/// The size of the batch taken when `count` messages were processed before: between 1
/// and 10, cycling with the count.
pub open spec fn batch_after(count: u64) -> u64 {
    (count % 10 + 1) as u64
}

/// The message that a worker without a broker makes up for position `index` of a
/// batch at `now_ms`: execution "mock_exec_<index>" on BTC-KRW, buying at even and
/// selling at odd positions, price 50000 + 100·index, quantity 100 + 10·index, order
/// "mock_order_<index>", user "mock_user_<index mod 5>".
pub open spec fn mock_message_ok(m: MarketDataMessage, index: u64, now_ms: u64) -> bool {
    &&& m.execution_id@ == "mock_exec_"@ + decimal_of(index as nat)
    &&& m.symbol@ == "BTC-KRW"@
    &&& m.side@ == if index % 2 == 0 { "Buy"@ } else { "Sell"@ }
    &&& m.price == 50000 + index * 100
    &&& m.quantity == 100 + index * 10
    &&& m.timestamp == now_ms
    &&& m.order_id@ == "mock_order_"@ + decimal_of(index as nat)
    &&& m.user_id@ == "mock_user_"@ + decimal_of((index % 5) as nat)
    &&& m.message_type@ == "execution"@
}

/// A worker of a consumer group; it counts the messages it processed.
pub struct KafkaConsumerWorker {
    topic_name: String,
    consumer_group: String,
    worker_id: String,
    batch_size: usize,
    processing_interval_ms: u64,
    messages_processed: u64,
}

impl KafkaConsumerWorker {
    /// The number of messages processed so far.
    pub closed spec fn processed(&self) -> u64 {
        self.messages_processed
    }

    /// The worker's id.
    pub closed spec fn id(&self) -> Seq<char> {
        self.worker_id@
    }

    /// The topic read.
    pub closed spec fn topic(&self) -> Seq<char> {
        self.topic_name@
    }

    /// The pause between batches.
    pub closed spec fn interval(&self) -> u64 {
        self.processing_interval_ms
    }

    /// A worker with the config's topic, group, id and pacing that processed nothing.
    pub fn new(config: KafkaConsumerConfig) -> (r: Self)
        ensures
            r.processed() == 0,
            r.id() == config.worker_id@,
            r.topic() == config.topic_name@,
            r.interval() == config.processing_interval_ms,
    {
        KafkaConsumerWorker {
            topic_name: config.topic_name,
            consumer_group: config.consumer_group,
            worker_id: config.worker_id,
            batch_size: config.batch_size,
            processing_interval_ms: config.processing_interval_ms,
            messages_processed: 0,
        }
    }

    /// The worker's id.
    pub fn worker_id(&self) -> (r: &String)
        ensures
            r@ == self.id(),
    {
        &self.worker_id
    }

    /// The topic read.
    pub fn topic_name(&self) -> (r: &String)
        ensures
            r@ == self.topic(),
    {
        &self.topic_name
    }

    /// The pause between batches in milliseconds.
    pub fn processing_interval_ms(&self) -> (r: u64)
        ensures
            r == self.interval(),
    {
        self.processing_interval_ms
    }

    /// Takes the next batch at `now_ms`: `batch_after(processed)` messages, made up as
    /// `mock_message_ok` says for positions 0, 1, ..; the count grows by their number.
    pub fn process_batch(&mut self, now_ms: u64) -> (r: Vec<MarketDataMessage>)
        requires
            old(self).processed() + 10 <= u64::MAX,
        ensures
            r.len() == batch_after(old(self).processed()),
            forall|i: int| 0 <= i < r.len() ==> mock_message_ok(#[trigger] r@[i], i as u64, now_ms),
            final(self).processed() == old(self).processed() + r.len(),
            final(self).id() == old(self).id(),
            final(self).topic() == old(self).topic(),
            final(self).interval() == old(self).interval(),
    {
        let n = self.messages_processed % 10 + 1;
        self.messages_processed = self.messages_processed + n;
        let mut out: Vec<MarketDataMessage> = Vec::new();
        let mut i: u64 = 0;
        while i < n
            invariant
                n <= 10,
                i <= n,
                out.len() == i,
                forall|j: int| 0 <= j < i ==> mock_message_ok(#[trigger] out@[j], j as u64, now_ms),
            decreases n - i,
        {
            out.push(create_mock_message(i, now_ms));
            i = i + 1;
        }
        out
    }
}

/// The made-up message for position `index` at `now_ms` (see `mock_message_ok`).
pub fn create_mock_message(index: u64, now_ms: u64) -> (r: MarketDataMessage)
    requires
        index <= 10,
    ensures
        mock_message_ok(r, index, now_ms),
{
    MarketDataMessage {
        execution_id: with_number("mock_exec_", index),
        symbol: String::from_str("BTC-KRW"),
        side: if index % 2 == 0 { String::from_str("Buy") } else { String::from_str("Sell") },
        price: 50000 + index * 100,
        quantity: 100 + index * 10,
        timestamp: now_ms,
        order_id: with_number("mock_order_", index),
        user_id: with_number("mock_user_", index % 5),
        message_type: String::from_str("execution"),
    }
}

/// Price times quantity, computed without overflow.
fn trade_value(message: &MarketDataMessage) -> (r: u128)
    ensures
        r == message.price * message.quantity,
{
    let p = message.price as u128;
    let q = message.quantity as u128;
    proof {
        assert(p * q <= 0xffff_ffff_ffff_ffffu128 * 0xffff_ffff_ffff_ffffu128) by (nonlinear_arith)
            requires
                p <= 0xffff_ffff_ffff_ffffu128,
                q <= 0xffff_ffff_ffff_ffffu128,
        ;
    }
    p * q
}

/// A trade is large, for the regulator, when price times quantity reaches 100 000 000.
pub fn is_large_trade(message: &MarketDataMessage) -> (r: bool)
    ensures
        r == (message.price * message.quantity >= 100_000_000),
{
    trade_value(message) >= 100_000_000
}

/// A trade is a whale's, for the analytics, when price times quantity reaches
/// 1 000 000 000.
pub fn is_whale_trade(message: &MarketDataMessage) -> (r: bool)
    ensures
        r == (message.price * message.quantity >= 1_000_000_000),
{
    trade_value(message) >= 1_000_000_000
}

/// Every batch takes between 1 and 10 messages.
pub proof fn law_batch_size_bounds(count: u64)
    ensures
        1 <= batch_after(count) <= 10,
{
}

} // verus!
