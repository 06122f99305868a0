//! The market data consumer: it keeps the recent trades of each symbol and turns them
//! into a candle per symbol and timeframe and into statistics over a window.

use vstd::prelude::*;
use crate::dashboard::keep_last;
use crate::keys::{first_pos, lemma_first_pos, lemma_first_pos_at};
use crate::metrics::wrap_add;
use crate::outside::{new_uuid_string, unix_time_millis};
use crate::text::join3;

verus! {

/// One trade.
#[derive(Debug)]
pub struct TradeData {
    pub symbol: String,
    pub price: u64,
    pub quantity: u64,
    pub timestamp: u64,
    pub side: String,
    pub trade_id: String,
}

impl Clone for TradeData {
    fn clone(&self) -> (r: Self)
        ensures
            r == *self,
    {
        TradeData {
            symbol: self.symbol.clone(),
            price: self.price,
            quantity: self.quantity,
            timestamp: self.timestamp,
            side: self.side.clone(),
            trade_id: self.trade_id.clone(),
        }
    }
}

/// A candle of one symbol and timeframe, starting at `timestamp`.
#[derive(Debug)]
pub struct CandlestickData {
    pub symbol: String,
    pub timeframe: String,
    pub open: u64,
    pub high: u64,
    pub low: u64,
    pub close: u64,
    pub volume: u64,
    pub timestamp: u64,
    pub trade_count: u32,
}

impl Clone for CandlestickData {
    fn clone(&self) -> (r: Self)
        ensures
            r == *self,
    {
        CandlestickData {
            symbol: self.symbol.clone(),
            timeframe: self.timeframe.clone(),
            open: self.open,
            high: self.high,
            low: self.low,
            close: self.close,
            volume: self.volume,
            timestamp: self.timestamp,
            trade_count: self.trade_count,
        }
    }
}

/// Settings of the consumer.
#[derive(Debug)]
pub struct MDPConsumerConfig {
    pub kafka_brokers: Vec<String>,
    pub topics: Vec<String>,
    pub consumer_group: String,
    pub batch_size: usize,
    pub processing_interval_ms: u64,
    pub candlestick_timeframes: Vec<String>,
    pub statistics_window_ms: u64,
}

fn strings2(a: &str, b: &str) -> (r: Vec<String>)
    ensures
        r@.len() == 2,
        r@[0]@ == a@,
        r@[1]@ == b@,
{
    let mut v: Vec<String> = Vec::new();
    v.push(String::from_str(a));
    v.push(String::from_str(b));
    v
}

impl Default for MDPConsumerConfig {
    /// A local broker, the topics "market-data" and "executions", group
    /// "mdp-consumer-group", batches of 100 every second, candles for 1m, 5m, 15m, 1h,
    /// 4h and 1d, statistics over 24 hours.
    fn default() -> (r: Self)
        ensures
            r.kafka_brokers@.len() == 1,
            r.kafka_brokers@[0]@ == "localhost:9092"@,
            r.topics@.len() == 2,
            r.topics@[0]@ == "market-data"@,
            r.topics@[1]@ == "executions"@,
            r.consumer_group@ == "mdp-consumer-group"@,
            r.batch_size == 100,
            r.processing_interval_ms == 1000,
            r.candlestick_timeframes@.len() == 6,
            r.candlestick_timeframes@[0]@ == "1m"@,
            r.candlestick_timeframes@[1]@ == "5m"@,
            r.candlestick_timeframes@[2]@ == "15m"@,
            r.candlestick_timeframes@[3]@ == "1h"@,
            r.candlestick_timeframes@[4]@ == "4h"@,
            r.candlestick_timeframes@[5]@ == "1d"@,
            r.statistics_window_ms == 86400000,
    {
        let mut brokers: Vec<String> = Vec::new();
        brokers.push(String::from_str("localhost:9092"));
        let mut tfs: Vec<String> = Vec::new();
        tfs.push(String::from_str("1m"));
        tfs.push(String::from_str("5m"));
        tfs.push(String::from_str("15m"));
        tfs.push(String::from_str("1h"));
        tfs.push(String::from_str("4h"));
        tfs.push(String::from_str("1d"));
        MDPConsumerConfig {
            kafka_brokers: brokers,
            topics: strings2("market-data", "executions"),
            consumer_group: String::from_str("mdp-consumer-group"),
            batch_size: 100,
            processing_interval_ms: 1000,
            candlestick_timeframes: tfs,
            statistics_window_ms: 86400000,
        }
    }
}

/// Counts of what the consumer holds.
#[derive(Debug, Clone, Copy)]
pub struct MDPConsumerStats {
    pub candlestick_count: usize,
    pub statistics_count: usize,
    pub trades_count: usize,
    pub is_processing: bool,
}

/// The whole-number part of a symbol's statistics over the window: first and last
/// price, volume, high, low, the quoted bid and ask around the last price and their
/// spread, and the time of the computation.
#[derive(Debug)]
pub struct TradeWindowStats {
    pub symbol: String,
    pub first_price: u64,
    pub last_price: u64,
    pub volume_24h: u64,
    pub high_24h: u64,
    pub low_24h: u64,
    pub bid_price: u64,
    pub ask_price: u64,
    pub spread: u64,
    pub timestamp: u64,
}

impl Clone for TradeWindowStats {
    fn clone(&self) -> (r: Self)
        ensures
            r == *self,
    {
        TradeWindowStats {
            symbol: self.symbol.clone(),
            first_price: self.first_price,
            last_price: self.last_price,
            volume_24h: self.volume_24h,
            high_24h: self.high_24h,
            low_24h: self.low_24h,
            bid_price: self.bid_price,
            ask_price: self.ask_price,
            spread: self.spread,
            timestamp: self.timestamp,
        }
    }
}

// ---------------------------------------------------------------------------
// Timeframes and windows

/// The length of a timeframe in milliseconds: 1m, 5m, 15m, 1h, 4h or 1d.
pub open spec fn timeframe_ms(tf: Seq<char>) -> Option<u64> {
    if tf == "1m"@ {
        Some(60000)
    } else if tf == "5m"@ {
        Some(300000)
    } else if tf == "15m"@ {
        Some(900000)
    } else if tf == "1h"@ {
        Some(3600000)
    } else if tf == "4h"@ {
        Some(14400000)
    } else if tf == "1d"@ {
        Some(86400000)
    } else {
        None
    }
}

/// The length of a timeframe in milliseconds; any other name is an error.
pub fn timeframe_to_ms(timeframe: &str) -> (r: Result<u64, String>)
    ensures
        match timeframe_ms(timeframe@) {
            Some(ms) => r == Ok::<u64, String>(ms),
            None => r matches Err(e) && e@ == "지원하지 않는 타임프레임: "@ + timeframe@,
        },
{
    let t = String::from_str(timeframe);
    if t == String::from_str("1m") {
        Ok(60000)
    } else if t == String::from_str("5m") {
        Ok(300000)
    } else if t == String::from_str("15m") {
        Ok(900000)
    } else if t == String::from_str("1h") {
        Ok(3600000)
    } else if t == String::from_str("4h") {
        Ok(14400000)
    } else if t == String::from_str("1d") {
        Ok(86400000)
    } else {
        let e = join3("지원하지 않는 타임프레임: ", timeframe, "");
        proof {
            reveal_strlit("");
            assert(e@ =~= "지원하지 않는 타임프레임: "@ + timeframe@);
        }
        Err(e)
    }
}

/// The trades from `start` on and before `end`, in order.
pub open spec fn window(s: Seq<TradeData>, start: int, end: int) -> Seq<TradeData>
    decreases s.len(),
{
    if s.len() == 0 {
        Seq::empty()
    } else if start <= s.last().timestamp < end {
        window(s.drop_last(), start, end).push(s.last())
    } else {
        window(s.drop_last(), start, end)
    }
}

/// The highest price of a nonempty sequence of trades.
pub open spec fn high_of(w: Seq<TradeData>) -> u64
    decreases w.len(),
{
    if w.len() <= 1 {
        w[0].price
    } else if w.last().price > high_of(w.drop_last()) {
        w.last().price
    } else {
        high_of(w.drop_last())
    }
}

/// The lowest price of a nonempty sequence of trades.
pub open spec fn low_of(w: Seq<TradeData>) -> u64
    decreases w.len(),
{
    if w.len() <= 1 {
        w[0].price
    } else if w.last().price < low_of(w.drop_last()) {
        w.last().price
    } else {
        low_of(w.drop_last())
    }
}

/// The total quantity, summed in 64 bits with wrap-around.
pub open spec fn volume_of(w: Seq<TradeData>) -> u64
    decreases w.len(),
{
    if w.len() == 0 { 0 } else { wrap_add(volume_of(w.drop_last()), w.last().quantity) }
}

/// Open, high, low, close, volume and count of a window of trades.
pub struct WindowSummary {
    pub count: usize,
    pub open: u64,
    pub high: u64,
    pub low: u64,
    pub close: u64,
    pub volume: u64,
}

/// What a summary says of a window.
pub open spec fn summarizes(r: WindowSummary, w: Seq<TradeData>) -> bool {
    &&& r.count == w.len()
    &&& r.volume == volume_of(w)
    &&& w.len() > 0 ==> {
        &&& r.open == w[0].price
        &&& r.close == w.last().price
        &&& r.high == high_of(w)
        &&& r.low == low_of(w)
    }
}

/// The end of a window as a number: no end is past every 64-bit time.
pub open spec fn end_of(end: Option<u64>) -> int {
    match end {
        Some(e) => e as int,
        None => 0x1_0000_0000_0000_0000,
    }
}

/// Summarizes the trades from `start` on and before `end` (with no end, all from
/// `start` on).
pub fn summarize_window(trades: &Vec<TradeData>, start: u64, end: Option<u64>) -> (r: WindowSummary)
    ensures
        summarizes(r, window(trades@, start as int, end_of(end))),
{
    let mut r = WindowSummary { count: 0, open: 0, high: 0, low: 0, close: 0, volume: 0 };
    let n = trades.len();
    let mut i: usize = 0;
    while i < n
        invariant
            n == trades@.len(),
            i <= n,
            summarizes(r, window(trades@.take(i as int), start as int, end_of(end))),
            window(trades@.take(i as int), start as int, end_of(end)).len() <= i,
        decreases n - i,
    {
        let ghost w0 = window(trades@.take(i as int), start as int, end_of(end));
        proof {
            let s = trades@.take(i + 1);
            assert(s.drop_last() =~= trades@.take(i as int));
            assert(s.last() == trades@[i as int]);
        }
        let t = &trades[i];
        let before_end = match end {
            Some(e) => t.timestamp < e,
            None => true,
        };
        if start <= t.timestamp && before_end {
            let ghost w1 = w0.push(*t);
            proof {
                assert(w1.drop_last() =~= w0);
                assert(w1.last() == *t);
            }
            if r.count == 0 {
                r.open = t.price;
                r.high = t.price;
                r.low = t.price;
            } else {
                if t.price > r.high {
                    r.high = t.price;
                }
                if t.price < r.low {
                    r.low = t.price;
                }
            }
            r.close = t.price;
            r.volume = r.volume.wrapping_add(t.quantity);
            r.count = r.count + 1;
            proof {
                assert(w1[0] == if w0.len() > 0 { w0[0] } else { *t });
            }
        }
        i = i + 1;
    }
    proof {
        assert(trades@.take(n as int) =~= trades@);
    }
    r
}

// ---------------------------------------------------------------------------
// The consumer

/// The symbols of the trade groups.
pub open spec fn group_keys(g: Seq<(String, Vec<TradeData>)>) -> Seq<Seq<char>> {
    g.map_values(|p: (String, Vec<TradeData>)| p.0@)
}

/// The trade groups as symbols and trades.
pub open spec fn groups_view(g: Seq<(String, Vec<TradeData>)>) -> Seq<(Seq<char>, Seq<TradeData>)> {
    g.map_values(|p: (String, Vec<TradeData>)| (p.0@, p.1@))
}

/// The groups after a trade arrives: it joins its symbol's group (a new group when
/// there is none), which keeps its last 1000 trades.
pub open spec fn add_trade(g: Seq<(Seq<char>, Seq<TradeData>)>, t: TradeData) -> Seq<
    (Seq<char>, Seq<TradeData>),
> {
    let k = first_pos(g.map_values(|p: (Seq<char>, Seq<TradeData>)| p.0), t.symbol@);
    if k < g.len() {
        g.update(k as int, (g[k as int].0, keep_last(g[k as int].1.push(t), 1000)))
    } else {
        g.push((t.symbol@, seq![t]))
    }
}

/// The groups after trades arrive one after the other.
pub open spec fn add_trades(g: Seq<(Seq<char>, Seq<TradeData>)>, ts: Seq<TradeData>) -> Seq<
    (Seq<char>, Seq<TradeData>),
>
    decreases ts.len(),
{
    if ts.len() == 0 { g } else { add_trade(add_trades(g, ts.drop_last()), ts.last()) }
}

/// The candle of a nonempty window of trades, starting at `start`.
pub open spec fn candle_of(symbol: String, timeframe: String, w: Seq<TradeData>, start: u64) -> CandlestickData {
    CandlestickData {
        symbol,
        timeframe,
        open: w[0].price,
        high: high_of(w),
        low: low_of(w),
        close: w.last().price,
        volume: volume_of(w),
        timestamp: start,
        trade_count: w.len() as u32,
    }
}

/// The symbols and timeframes of candles.
pub open spec fn candle_keys(c: Seq<CandlestickData>) -> Seq<(Seq<char>, Seq<char>)> {
    c.map_values(|x: CandlestickData| (x.symbol@, x.timeframe@))
}

/// `x` stored under its symbol and timeframe, replacing the candle there.
pub open spec fn upsert_candle(c: Seq<CandlestickData>, x: CandlestickData) -> Seq<CandlestickData> {
    let k = first_pos(candle_keys(c), (x.symbol@, x.timeframe@));
    if k < c.len() { c.update(k as int, x) } else { c.push(x) }
}

/// One symbol and timeframe: the candle of the current window of the timeframe, when
/// it has trades; false for an unknown timeframe.
pub open spec fn candle_step(
    c: Seq<CandlestickData>,
    symbol: String,
    trades: Seq<TradeData>,
    tf: String,
    now: u64,
) -> (Seq<CandlestickData>, bool) {
    match timeframe_ms(tf@) {
        None => (c, false),
        Some(ms) => {
            let start = (now - now % ms) as u64;
            let w = window(trades, start as int, start + ms);
            if w.len() == 0 {
                (c, true)
            } else {
                (upsert_candle(c, candle_of(symbol, tf, w, start)), true)
            }
        },
    }
}

/// One symbol over the timeframes in order, stopping at an unknown one.
pub open spec fn candles_for_symbol(
    c: Seq<CandlestickData>,
    symbol: String,
    trades: Seq<TradeData>,
    tfs: Seq<String>,
    now: u64,
) -> (Seq<CandlestickData>, bool)
    decreases tfs.len(),
{
    if tfs.len() == 0 {
        (c, true)
    } else {
        let (c1, ok) = candles_for_symbol(c, symbol, trades, tfs.drop_last(), now);
        if !ok { (c1, false) } else { candle_step(c1, symbol, trades, tfs.last(), now) }
    }
}

/// The symbols with trades in order, each over the timeframes, stopping at an unknown
/// timeframe.
pub open spec fn candles_for_groups(
    c: Seq<CandlestickData>,
    g: Seq<(String, Vec<TradeData>)>,
    tfs: Seq<String>,
    now: u64,
) -> (Seq<CandlestickData>, bool)
    decreases g.len(),
{
    if g.len() == 0 {
        (c, true)
    } else {
        let (c1, ok) = candles_for_groups(c, g.drop_last(), tfs, now);
        if !ok {
            (c1, false)
        } else if g.last().1@.len() == 0 {
            (c1, true)
        } else {
            candles_for_symbol(c1, g.last().0, g.last().1@, tfs, now)
        }
    }
}

/// The statistics of a symbol's window of trades, taken at `now`.
pub open spec fn stats_of(symbol: String, w: Seq<TradeData>, now: u64) -> TradeWindowStats {
    let last = w.last().price;
    let bid: u64 = if last >= 1000 { (last - 1000) as u64 } else { 0 };
    let ask = wrap_add(last, 1000);
    TradeWindowStats {
        symbol,
        first_price: w[0].price,
        last_price: last,
        volume_24h: volume_of(w),
        high_24h: high_of(w),
        low_24h: low_of(w),
        bid_price: bid,
        ask_price: ask,
        spread: if ask >= bid { (ask - bid) as u64 } else { (ask + 0x1_0000_0000_0000_0000 - bid) as u64 },
        timestamp: now,
    }
}

/// `x` stored under its symbol, replacing the statistics there.
pub open spec fn upsert_stats(s: Seq<TradeWindowStats>, x: TradeWindowStats) -> Seq<TradeWindowStats> {
    let k = first_pos(s.map_values(|y: TradeWindowStats| y.symbol@), x.symbol@);
    if k < s.len() { s.update(k as int, x) } else { s.push(x) }
}

/// The statistics of each symbol with trades since `start`, in order.
pub open spec fn stats_for_groups(
    s: Seq<TradeWindowStats>,
    g: Seq<(String, Vec<TradeData>)>,
    start: u64,
    now: u64,
) -> Seq<TradeWindowStats>
    decreases g.len(),
{
    if g.len() == 0 {
        s
    } else {
        let s1 = stats_for_groups(s, g.drop_last(), start, now);
        let w = window(g.last().1@, start as int, 0x1_0000_0000_0000_0000);
        if w.len() == 0 { s1 } else { upsert_stats(s1, stats_of(g.last().0, w, now)) }
    }
}

/// The number of different symbols among the candles.
pub open spec fn candle_symbols(c: Seq<CandlestickData>) -> nat
    decreases c.len(),
{
    if c.len() == 0 {
        0
    } else if first_pos(c.drop_last().map_values(|x: CandlestickData| x.symbol@), c.last().symbol@)
        < c.len() - 1 {
        candle_symbols(c.drop_last())
    } else {
        candle_symbols(c.drop_last()) + 1
    }
}

pub proof fn lemma_candle_symbols_len(c: Seq<CandlestickData>)
    ensures
        candle_symbols(c) <= c.len(),
    decreases c.len(),
{
    if c.len() > 0 {
        lemma_candle_symbols_len(c.drop_last());
    }
}

/// The consumer: its settings, the recent trades grouped by symbol, the candles (one
/// per symbol and timeframe) and the statistics (one per symbol).
pub struct MDPConsumer {
    config: MDPConsumerConfig,
    candlestick_data: Vec<CandlestickData>,
    market_statistics: Vec<TradeWindowStats>,
    recent_trades: Vec<(String, Vec<TradeData>)>,
    is_processing: bool,
}

impl MDPConsumer {
    /// The settings.
    pub closed spec fn config(&self) -> &MDPConsumerConfig {
        &self.config
    }

    /// The candles.
    pub closed spec fn candles(&self) -> Seq<CandlestickData> {
        self.candlestick_data@
    }

    /// The statistics.
    pub closed spec fn stats(&self) -> Seq<TradeWindowStats> {
        self.market_statistics@
    }

    /// The recent trades by symbol.
    pub closed spec fn groups(&self) -> Seq<(String, Vec<TradeData>)> {
        self.recent_trades@
    }

    /// Whether the consumer is processing.
    pub closed spec fn processing(&self) -> bool {
        self.is_processing
    }

    /// Each symbol has one group of at most 1000 trades.
    pub open spec fn wf(&self) -> bool {
        &&& crate::keys::distinct(group_keys(self.groups()))
        &&& forall|i: int| 0 <= i < self.groups().len() ==> (#[trigger] self.groups()[i]).1@.len() <= 1000
    }

    /// A consumer with the given settings and no data.
    pub fn new(config: MDPConsumerConfig) -> (r: Self)
        ensures
            r.wf(),
            *r.config() == config,
            r.candles().len() == 0,
            r.stats().len() == 0,
            r.groups().len() == 0,
            !r.processing(),
    {
        MDPConsumer {
            config,
            candlestick_data: Vec::new(),
            market_statistics: Vec::new(),
            recent_trades: Vec::new(),
            is_processing: false,
        }
    }

    fn find_group(&self, sym: &String) -> (r: usize)
        ensures
            r == first_pos(group_keys(self.groups()), sym@),
    {
        let ghost ks = group_keys(self.recent_trades@);
        proof {
            lemma_first_pos(ks, sym@);
        }
        let n = self.recent_trades.len();
        let mut k: usize = 0;
        while k < n
            invariant
                n == self.recent_trades@.len(),
                ks == group_keys(self.recent_trades@),
                k <= n,
                forall|j: int| 0 <= j < k ==> ks[j] != sym@,
            decreases n - k,
        {
            if self.recent_trades[k].0 == *sym {
                proof {
                    lemma_first_pos_at(ks, sym@, k as int);
                }
                return k;
            }
            k = k + 1;
        }
        proof {
            lemma_first_pos_at(ks, sym@, n as int);
        }
        n
    }

    fn find_candle(&self, sym: &String, tf: &String) -> (r: usize)
        ensures
            r == first_pos(candle_keys(self.candles()), (sym@, tf@)),
    {
        let ghost ks = candle_keys(self.candlestick_data@);
        proof {
            lemma_first_pos(ks, (sym@, tf@));
        }
        let n = self.candlestick_data.len();
        let mut k: usize = 0;
        while k < n
            invariant
                n == self.candlestick_data@.len(),
                ks == candle_keys(self.candlestick_data@),
                k <= n,
                forall|j: int| 0 <= j < k ==> ks[j] != (sym@, tf@),
            decreases n - k,
        {
            if self.candlestick_data[k].symbol == *sym && self.candlestick_data[k].timeframe == *tf {
                proof {
                    lemma_first_pos_at(ks, (sym@, tf@), k as int);
                }
                return k;
            }
            k = k + 1;
        }
        proof {
            lemma_first_pos_at(ks, (sym@, tf@), n as int);
        }
        n
    }

    fn find_stats(&self, sym: &String) -> (r: usize)
        ensures
            r == first_pos(self.stats().map_values(|y: TradeWindowStats| y.symbol@), sym@),
    {
        let ghost ks = self.market_statistics@.map_values(|y: TradeWindowStats| y.symbol@);
        proof {
            lemma_first_pos(ks, sym@);
        }
        let n = self.market_statistics.len();
        let mut k: usize = 0;
        while k < n
            invariant
                n == self.market_statistics@.len(),
                ks == self.market_statistics@.map_values(|y: TradeWindowStats| y.symbol@),
                k <= n,
                forall|j: int| 0 <= j < k ==> ks[j] != sym@,
            decreases n - k,
        {
            if self.market_statistics[k].symbol == *sym {
                proof {
                    lemma_first_pos_at(ks, sym@, k as int);
                }
                return k;
            }
            k = k + 1;
        }
        proof {
            lemma_first_pos_at(ks, sym@, n as int);
        }
        n
    }

    /// Adds a trade to its symbol's group, which keeps its last 1000 trades.
    pub fn add_trade(&mut self, trade: TradeData)
        requires
            old(self).wf(),
        ensures
            final(self).wf(),
            groups_view(final(self).groups()) == add_trade(groups_view(old(self).groups()), trade),
            final(self).candles() == old(self).candles(),
            final(self).stats() == old(self).stats(),
            *final(self).config() == *old(self).config(),
            final(self).processing() == old(self).processing(),
    {
        let ghost g0 = self.recent_trades@;
        let ghost gv = groups_view(g0);
        proof {
            assert(gv.map_values(|p: (Seq<char>, Seq<TradeData>)| p.0) =~= group_keys(g0));
            lemma_first_pos(group_keys(g0), trade.symbol@);
        }
        let n = self.recent_trades.len();
        let k = self.find_group(&trade.symbol);
        if k < n {
            let ghost s0 = g0[k as int].1@;
            let pair = &mut self.recent_trades[k];
            pair.1.push(trade);
            if pair.1.len() > 1000 {
                pair.1.remove(0);
            }
            proof {
                assert(g0[k as int].1@.len() <= 1000);
                let s1 = s0.push(trade);
                if s1.len() > 1000 {
                    assert(s1.remove(0) =~= s1.skip(s1.len() - 1000));
                }
                assert(groups_view(self.recent_trades@) =~= add_trade(gv, trade));
                assert(group_keys(self.recent_trades@) =~= group_keys(g0));
                assert forall|i: int| 0 <= i < self.recent_trades@.len() implies (#[trigger] self.recent_trades@[i]).1@.len() <= 1000 by {
                    if i != k {
                        assert(self.recent_trades@[i] == g0[i]);
                    }
                }
            }
        } else {
            let sym = trade.symbol.clone();
            let mut v: Vec<TradeData> = Vec::new();
            v.push(trade);
            self.recent_trades.push((sym, v));
            proof {
                assert(v@ =~= seq![trade]);
                assert(groups_view(self.recent_trades@) =~= add_trade(gv, trade));
                let ks = group_keys(self.recent_trades@);
                assert(ks.drop_last() =~= group_keys(g0));
                assert forall|i: int, j: int| 0 <= i < j < ks.len() implies ks[i] != ks[j] by {
                    assert(ks[i] == group_keys(g0)[i]);
                    if j < ks.len() - 1 {
                        assert(ks[j] == group_keys(g0)[j]);
                    }
                }
            }
        }
    }

    /// Adds trades one after the other.
    pub fn add_trades(&mut self, trades: Vec<TradeData>)
        requires
            old(self).wf(),
        ensures
            final(self).wf(),
            groups_view(final(self).groups()) == add_trades(groups_view(old(self).groups()), trades@),
            final(self).candles() == old(self).candles(),
            final(self).stats() == old(self).stats(),
            *final(self).config() == *old(self).config(),
            final(self).processing() == old(self).processing(),
    {
        let n = trades.len();
        let mut rest = trades;
        let ghost ts = rest@;
        let mut rev: Vec<TradeData> = Vec::new();
        while rest.len() > 0
            invariant
                rest@.len() + rev@.len() == n,
                n == ts.len(),
                rest@ == ts.take(rest@.len() as int),
                forall|j: int| 0 <= j < rev@.len() ==> rev@[j] == ts[n - 1 - j],
            decreases rest@.len(),
        {
            let t = rest.pop().unwrap();
            rev.push(t);
            proof {
                assert(rest@ =~= ts.take(rest@.len() as int));
            }
        }
        let mut i: usize = 0;
        while i < n
            invariant
                n == ts.len(),
                i <= n,
                rev@.len() == n - i,
                forall|j: int| 0 <= j < n - i ==> rev@[j] == ts[n - 1 - j],
                self.wf(),
                groups_view(self.groups()) == add_trades(groups_view(old(self).groups()), ts.take(i as int)),
                self.candles() == old(self).candles(),
                self.stats() == old(self).stats(),
                *self.config() == *old(self).config(),
                self.processing() == old(self).processing(),
            decreases n - i,
        {
            let t = rev.pop().unwrap();
            proof {
                let s = ts.take(i + 1);
                assert(s.drop_last() =~= ts.take(i as int));
                assert(s.last() == t);
            }
            self.add_trade(t);
            i = i + 1;
        }
        proof {
            assert(ts.take(n as int) =~= ts);
        }
    }

    /// The trades that arrive from the feed (made up here: a batch from
    /// `create_mock_trade_data`) are added to their symbols' groups, in order (see
    /// `add_trades`).
    pub fn consume_kafka_messages(&mut self) -> (r: Result<(), String>)
        requires
            old(self).wf(),
        ensures
            final(self).wf(),
            r is Ok,
            exists|trades: Seq<TradeData>| #[trigger] mock_batch(trades) && groups_view(final(self).groups()) == add_trades(
                groups_view(old(self).groups()),
                trades,
            ),
            final(self).candles() == old(self).candles(),
            final(self).stats() == old(self).stats(),
            *final(self).config() == *old(self).config(),
            final(self).processing() == old(self).processing(),
    {
        let trades = create_mock_trade_data();
        let ghost ts = trades@;
        self.add_trades(trades);
        proof {
            assert(mock_batch(ts));
        }
        Ok(())
    }

    fn put_candle(&mut self, x: CandlestickData)
        ensures
            final(self).candles() == upsert_candle(old(self).candles(), x),
            final(self).stats() == old(self).stats(),
            final(self).groups() == old(self).groups(),
            *final(self).config() == *old(self).config(),
            final(self).processing() == old(self).processing(),
    {
        let ghost ks = candle_keys(self.candlestick_data@);
        proof {
            lemma_first_pos(ks, (x.symbol@, x.timeframe@));
        }
        let n = self.candlestick_data.len();
        let k = self.find_candle(&x.symbol, &x.timeframe);
        if k < n {
            self.candlestick_data.set(k, x);
        } else {
            self.candlestick_data.push(x);
        }
    }

    fn put_stats(&mut self, x: TradeWindowStats)
        ensures
            final(self).stats() == upsert_stats(old(self).stats(), x),
            final(self).candles() == old(self).candles(),
            final(self).groups() == old(self).groups(),
            *final(self).config() == *old(self).config(),
            final(self).processing() == old(self).processing(),
    {
        let ghost ks = self.market_statistics@.map_values(|y: TradeWindowStats| y.symbol@);
        proof {
            lemma_first_pos(ks, x.symbol@);
        }
        let n = self.market_statistics.len();
        let k = self.find_stats(&x.symbol);
        if k < n {
            self.market_statistics.set(k, x);
        } else {
            self.market_statistics.push(x);
        }
    }

    /// Computes at `now`, for each symbol with trades and each configured timeframe in
    /// order, the candle of the timeframe's current window (from `now` rounded down to
    /// the timeframe): open and close are the first and last trade's price, high and low
    /// the extremes, volume the sum of quantities, and the count the number of trades.
    /// A window without trades leaves the candle as it was. An unknown timeframe stops
    /// the computation with an error (what was computed before it stays).
    pub fn calculate_candlesticks(&mut self, now: u64) -> (r: Result<(), String>)
        requires
            now <= u64::MAX - 86400000,
        ensures
            ({
                let (c, ok) = candles_for_groups(
                    old(self).candles(),
                    old(self).groups(),
                    old(self).config().candlestick_timeframes@,
                    now,
                );
                let tfs = old(self).config().candlestick_timeframes@;
                &&& final(self).candles() == c
                &&& (r is Ok) == ok
                &&& r matches Err(e) ==> exists|j: int|
                    0 <= j < tfs.len() && timeframe_ms(tfs[j]@) is None && (forall|jj: int|
                        0 <= jj < j ==> timeframe_ms(#[trigger] tfs[jj]@) is Some) && e@
                        == "지원하지 않는 타임프레임: "@ + tfs[j]@
            }),
            final(self).stats() == old(self).stats(),
            final(self).groups() == old(self).groups(),
            *final(self).config() == *old(self).config(),
            final(self).processing() == old(self).processing(),
    {
        let ghost g = self.recent_trades@;
        let ghost tfs = self.config.candlestick_timeframes@;
        let ng = self.recent_trades.len();
        let mut i: usize = 0;
        while i < ng
            invariant
                ng == g.len(),
                g == self.recent_trades@,
                tfs == self.config.candlestick_timeframes@,
                now <= u64::MAX - 86400000,
                i <= ng,
                candles_for_groups(old(self).candles(), g.take(i as int), tfs, now) == (
                    self.candles(),
                    true,
                ),
                self.stats() == old(self).stats(),
                self.groups() == old(self).groups(),
                *self.config() == *old(self).config(),
                self.processing() == old(self).processing(),
            decreases ng - i,
        {
            let ghost c0 = self.candles();
            proof {
                let s = g.take(i + 1);
                assert(s.drop_last() =~= g.take(i as int));
                assert(s.last() == g[i as int]);
            }
            if self.recent_trades[i].1.len() > 0 {
                let ntf = self.config.candlestick_timeframes.len();
                let mut j: usize = 0;
                while j < ntf
                    invariant
                        ntf == tfs.len(),
                        ng == g.len(),
                        g[i as int].1@.len() > 0,
                        candles_for_groups(old(self).candles(), g.take(i as int), tfs, now) == (c0, true),
                        g == self.recent_trades@,
                        tfs == self.config.candlestick_timeframes@,
                        now <= u64::MAX - 86400000,
                        i < ng,
                        j <= ntf,
                        candles_for_symbol(c0, g[i as int].0, g[i as int].1@, tfs.take(j as int), now) == (
                            self.candles(),
                            true,
                        ),
                        forall|jj: int| 0 <= jj < j ==> timeframe_ms(#[trigger] tfs[jj]@) is Some,
                        self.stats() == old(self).stats(),
                        self.groups() == old(self).groups(),
                        *self.config() == *old(self).config(),
                        self.processing() == old(self).processing(),
                    decreases ntf - j,
                {
                    let ghost c1 = self.candles();
                    proof {
                        let s = tfs.take(j + 1);
                        assert(s.drop_last() =~= tfs.take(j as int));
                        assert(s.last() == tfs[j as int]);
                    }
                    let ms = match timeframe_to_ms(self.config.candlestick_timeframes[j].as_str()) {
                        Ok(ms) => ms,
                        Err(e) => {
                            proof {
                                lemma_symbol_stops(c0, g[i as int].0, g[i as int].1@, tfs, now, j as int, ntf as int, c1);
                                assert(tfs.take(ntf as int) =~= tfs);
                                let s = g.take(i + 1);
                                assert(s.drop_last() =~= g.take(i as int));
                                assert(s.last() == g[i as int]);
                                assert(candles_for_groups(old(self).candles(), g.take(i + 1), tfs, now) == (c1, false));
                                lemma_groups_stay(old(self).candles(), g, tfs, now, i + 1, ng as int, c1);
                                assert(g.take(ng as int) =~= g);
                                assert(timeframe_ms(tfs[j as int]@) is None);
                            }
                            return Err(e);
                        },
                    };
                    proof {
                        assert(ms > 0);
                        assert(now % ms <= now) by (nonlinear_arith)
                            requires
                                ms > 0,
                        ;
                    }
                    let start = now - now % ms;
                    let sum = summarize_window(&self.recent_trades[i].1, start, Some(start + ms));
                    if sum.count > 0 {
                        let x = CandlestickData {
                            symbol: self.recent_trades[i].0.clone(),
                            timeframe: self.config.candlestick_timeframes[j].clone(),
                            open: sum.open,
                            high: sum.high,
                            low: sum.low,
                            close: sum.close,
                            volume: sum.volume,
                            timestamp: start,
                            trade_count: #[verifier::truncate] (sum.count as u32),
                        };
                        self.put_candle(x);
                    }
                    j = j + 1;
                }
                proof {
                    assert(tfs.take(ntf as int) =~= tfs);
                }
            }
            i = i + 1;
        }
        proof {
            assert(g.take(ng as int) =~= g);
        }
        Ok(())
    }

    /// Computes at `now` the statistics of each symbol with trades in the configured
    /// window before `now` (from `now` minus the window on): first and last price,
    /// volume, high and low, a bid 1000 below the last price (not below 0), an ask 1000
    /// above it, and their spread. A symbol without trades in the window keeps its
    /// statistics as they were.
    pub fn calculate_market_statistics(&mut self, now: u64)
        requires
            now >= old(self).config().statistics_window_ms,
        ensures
            final(self).stats() == stats_for_groups(
                old(self).stats(),
                old(self).groups(),
                (now - old(self).config().statistics_window_ms) as u64,
                now,
            ),
            final(self).candles() == old(self).candles(),
            final(self).groups() == old(self).groups(),
            *final(self).config() == *old(self).config(),
            final(self).processing() == old(self).processing(),
    {
        let start = now - self.config.statistics_window_ms;
        let ghost g = self.recent_trades@;
        let ng = self.recent_trades.len();
        let mut i: usize = 0;
        while i < ng
            invariant
                ng == g.len(),
                g == self.recent_trades@,
                start == now - self.config.statistics_window_ms,
                i <= ng,
                self.stats() == stats_for_groups(old(self).stats(), g.take(i as int), start, now),
                self.candles() == old(self).candles(),
                self.groups() == old(self).groups(),
                *self.config() == *old(self).config(),
                self.processing() == old(self).processing(),
            decreases ng - i,
        {
            proof {
                let s = g.take(i + 1);
                assert(s.drop_last() =~= g.take(i as int));
                assert(s.last() == g[i as int]);
            }
            let sum = summarize_window(&self.recent_trades[i].1, start, None);
            if sum.count > 0 {
                let last = sum.close;
                let bid = last.saturating_sub(1000);
                let ask = last.wrapping_add(1000);
                let x = TradeWindowStats {
                    symbol: self.recent_trades[i].0.clone(),
                    first_price: sum.open,
                    last_price: last,
                    volume_24h: sum.volume,
                    high_24h: sum.high,
                    low_24h: sum.low,
                    bid_price: bid,
                    ask_price: ask,
                    spread: ask.wrapping_sub(bid),
                    timestamp: now,
                };
                self.put_stats(x);
            }
            i = i + 1;
        }
        proof {
            assert(g.take(ng as int) =~= g);
        }
    }

    /// A copy of the candle of `symbol` and `timeframe`, if there is one.
    pub fn get_candlestick_data(&self, symbol: &str, timeframe: &str) -> (r: Option<CandlestickData>)
        ensures
            ({
                let k = first_pos(candle_keys(self.candles()), (symbol@, timeframe@));
                &&& (r is Some) == (k < self.candles().len())
                &&& r matches Some(c) ==> c == self.candles()[k as int]
            }),
    {
        let ghost ks = candle_keys(self.candlestick_data@);
        proof {
            lemma_first_pos(ks, (symbol@, timeframe@));
        }
        let sym = String::from_str(symbol);
        let tf = String::from_str(timeframe);
        let n = self.candlestick_data.len();
        let mut k: usize = 0;
        while k < n
            invariant
                n == self.candlestick_data@.len(),
                ks == candle_keys(self.candlestick_data@),
                sym@ == symbol@,
                tf@ == timeframe@,
                k <= n,
                forall|j: int| 0 <= j < k ==> ks[j] != (symbol@, timeframe@),
            decreases n - k,
        {
            if self.candlestick_data[k].symbol == sym && self.candlestick_data[k].timeframe == tf {
                proof {
                    lemma_first_pos_at(ks, (symbol@, timeframe@), k as int);
                }
                return Some(self.candlestick_data[k].clone());
            }
            k = k + 1;
        }
        proof {
            lemma_first_pos_at(ks, (symbol@, timeframe@), n as int);
        }
        None
    }

    /// A copy of the statistics of `symbol`, if there are some.
    pub fn get_market_statistics(&self, symbol: &str) -> (r: Option<TradeWindowStats>)
        ensures
            ({
                let k = first_pos(self.stats().map_values(|y: TradeWindowStats| y.symbol@), symbol@);
                &&& (r is Some) == (k < self.stats().len())
                &&& r matches Some(s) ==> s == self.stats()[k as int]
            }),
    {
        let ghost ks = self.market_statistics@.map_values(|y: TradeWindowStats| y.symbol@);
        proof {
            lemma_first_pos(ks, symbol@);
        }
        let sym = String::from_str(symbol);
        let n = self.market_statistics.len();
        let mut k: usize = 0;
        while k < n
            invariant
                n == self.market_statistics@.len(),
                ks == self.market_statistics@.map_values(|y: TradeWindowStats| y.symbol@),
                sym@ == symbol@,
                k <= n,
                forall|j: int| 0 <= j < k ==> ks[j] != symbol@,
            decreases n - k,
        {
            if self.market_statistics[k].symbol == sym {
                proof {
                    lemma_first_pos_at(ks, symbol@, k as int);
                }
                return Some(self.market_statistics[k].clone());
            }
            k = k + 1;
        }
        proof {
            lemma_first_pos_at(ks, symbol@, n as int);
        }
        None
    }

    /// Every candle, one per symbol and timeframe.
    pub fn get_all_candlestick_data(&self) -> (r: &Vec<CandlestickData>)
        ensures
            r@ == self.candles(),
    {
        &self.candlestick_data
    }

    /// Every symbol's statistics.
    pub fn get_all_market_statistics(&self) -> (r: &Vec<TradeWindowStats>)
        ensures
            r@ == self.stats(),
    {
        &self.market_statistics
    }

    /// Whether the consumer is processing.
    pub fn is_processing(&self) -> (r: bool)
        ensures
            r == self.processing(),
    {
        self.is_processing
    }

    /// The number of symbols with candles, with statistics and with trades.
    pub fn get_consumer_stats(&self) -> (r: MDPConsumerStats)
        ensures
            r.candlestick_count == candle_symbols(self.candles()),
            r.statistics_count == self.stats().len(),
            r.trades_count == self.groups().len(),
            r.is_processing == self.processing(),
    {
        let n = self.candlestick_data.len();
        let mut count: usize = 0;
        let mut i: usize = 0;
        while i < n
            invariant
                n == self.candlestick_data@.len(),
                i <= n,
                count == candle_symbols(self.candlestick_data@.take(i as int)),
                count <= i,
            decreases n - i,
        {
            let ghost c = self.candlestick_data@.take(i + 1);
            let ghost ks = c.drop_last().map_values(|x: CandlestickData| x.symbol@);
            proof {
                assert(c.drop_last() =~= self.candlestick_data@.take(i as int));
                assert(c.last() == self.candlestick_data@[i as int]);
                lemma_first_pos(ks, c.last().symbol@);
            }
            let mut j: usize = 0;
            let mut seen = false;
            while j < i
                invariant
                    n == self.candlestick_data@.len(),
                    i < n,
                    j <= i,
                    c == self.candlestick_data@.take(i + 1),
                    ks == c.drop_last().map_values(|x: CandlestickData| x.symbol@),
                    !seen ==> forall|jj: int| 0 <= jj < j ==> ks[jj] != c.last().symbol@,
                    seen ==> first_pos(ks, c.last().symbol@) < i,
                decreases i - j,
            {
                if !seen && self.candlestick_data[j].symbol == self.candlestick_data[i].symbol {
                    seen = true;
                    proof {
                        lemma_first_pos(ks, c.last().symbol@);
                        if first_pos(ks, c.last().symbol@) >= i {
                            assert(ks[j as int] == c.last().symbol@);
                        }
                    }
                }
                j = j + 1;
            }
            proof {
                if !seen {
                    lemma_first_pos_at(ks, c.last().symbol@, i as int);
                }
            }
            if !seen {
                count = count + 1;
            }
            i = i + 1;
        }
        proof {
            assert(self.candlestick_data@.take(n as int) =~= self.candlestick_data@);
        }
        MDPConsumerStats {
            candlestick_count: count,
            statistics_count: self.market_statistics.len(),
            trades_count: self.recent_trades.len(),
            is_processing: self.is_processing,
        }
    }
}

/// Once a symbol stops at an unknown timeframe, the later timeframes change nothing.
pub proof fn lemma_symbol_stops(
    c0: Seq<CandlestickData>,
    symbol: String,
    trades: Seq<TradeData>,
    tfs: Seq<String>,
    now: u64,
    j: int,
    m: int,
    c1: Seq<CandlestickData>,
)
    requires
        0 <= j < m <= tfs.len(),
        candles_for_symbol(c0, symbol, trades, tfs.take(j), now) == (c1, true),
        timeframe_ms(tfs[j]@) is None,
    ensures
        candles_for_symbol(c0, symbol, trades, tfs.take(m), now) == (c1, false),
    decreases m - j,
{
    let s = tfs.take(m);
    assert(s.drop_last() =~= tfs.take(m - 1));
    assert(s.last() == tfs[m - 1]);
    if m - 1 > j {
        lemma_symbol_stops(c0, symbol, trades, tfs, now, j, m - 1, c1);
    }
}

/// Once the computation stops, the later symbols change nothing.
pub proof fn lemma_groups_stay(
    c: Seq<CandlestickData>,
    g: Seq<(String, Vec<TradeData>)>,
    tfs: Seq<String>,
    now: u64,
    i: int,
    m: int,
    c1: Seq<CandlestickData>,
)
    requires
        0 <= i <= m <= g.len(),
        candles_for_groups(c, g.take(i), tfs, now) == (c1, false),
    ensures
        candles_for_groups(c, g.take(m), tfs, now) == (c1, false),
    decreases m - i,
{
    if m > i {
        lemma_groups_stay(c, g, tfs, now, i, m - 1, c1);
        let s = g.take(m);
        assert(s.drop_last() =~= g.take(m - 1));
    }
}

/// A batch of made-up trades: three symbols with five trades each, 1 s apart going back
/// from the first one's time: price 50 000 000 plus 1000 per step back plus less than
/// 10 000, quantity from 1000 to 1999, side "buy" or "sell", and a 36-character id.
pub open spec fn mock_batch(r: Seq<TradeData>) -> bool {
    &&& r.len() == 15
    &&& forall|k: int|
        0 <= k < 15 ==> {
            let t = #[trigger] r[k];
            let i = k % 5;
            &&& t.symbol@ == (if k < 5 { "BTC-KRW"@ } else if k < 10 { "ETH-KRW"@ } else { "XRP-KRW"@ })
            &&& 50000000 + i * 1000 <= t.price < 50000000 + i * 1000 + 10000
            &&& 1000 <= t.quantity < 2000
            &&& t.side@ == "buy"@ || t.side@ == "sell"@
            &&& t.trade_id@.len() == 36
            &&& t.timestamp == if r[0].timestamp >= i * 1000 { r[0].timestamp - i * 1000 } else { 0 }
        }
}

/// Three symbols with five trades each, 1 s apart going back from now: price
/// 50 000 000 plus 1000 per step back plus a draw below 10 000, quantity 1000 plus a
/// draw below 1000, a random side and a fresh id.
pub fn create_mock_trade_data() -> (r: Vec<TradeData>)
    ensures
        mock_batch(r@),
{
    let now = unix_time_millis();
    let mut trades: Vec<TradeData> = Vec::new();
    let mut s: usize = 0;
    while s < 3
        invariant
            s <= 3,
            trades@.len() == 5 * s,
            forall|k: int|
                0 <= k < trades@.len() ==> {
                    let t = #[trigger] trades@[k];
                    let i = k % 5;
                    &&& t.symbol@ == (if k < 5 { "BTC-KRW"@ } else if k < 10 { "ETH-KRW"@ } else { "XRP-KRW"@ })
                    &&& 50000000 + i * 1000 <= t.price < 50000000 + i * 1000 + 10000
                    &&& 1000 <= t.quantity < 2000
                    &&& t.side@ == "buy"@ || t.side@ == "sell"@
                    &&& t.trade_id@.len() == 36
                    &&& t.timestamp == if now >= i * 1000 { now - i * 1000 } else { 0 }
                },
        decreases 3 - s,
    {
        let mut i: u64 = 0;
        while i < 5
            invariant
                s < 3,
                i <= 5,
                trades@.len() == 5 * s + i,
                forall|k: int|
                    0 <= k < trades@.len() ==> {
                        let t = #[trigger] trades@[k];
                        let i = k % 5;
                        &&& t.symbol@ == (if k < 5 { "BTC-KRW"@ } else if k < 10 { "ETH-KRW"@ } else { "XRP-KRW"@ })
                        &&& 50000000 + i * 1000 <= t.price < 50000000 + i * 1000 + 10000
                        &&& 1000 <= t.quantity < 2000
                        &&& t.side@ == "buy"@ || t.side@ == "sell"@
                        &&& t.trade_id@.len() == 36
                        &&& t.timestamp == if now >= i * 1000 { now - i * 1000 } else { 0 }
                    },
            decreases 5 - i,
        {
            let symbol = if s == 0 {
                String::from_str("BTC-KRW")
            } else if s == 1 {
                String::from_str("ETH-KRW")
            } else {
                String::from_str("XRP-KRW")
            };
            let price = 50000000 + i * 1000 + (crate::random::u32_in(0, 10000) as u64);
            let quantity = 1000 + (crate::random::u32_in(0, 1000) as u64);
            let side = if crate::random::coin() {
                String::from_str("buy")
            } else {
                String::from_str("sell")
            };
            let ts = now.saturating_sub(i * 1000);
            trades.push(
                TradeData { symbol, price, quantity, timestamp: ts, side, trade_id: new_uuid_string() },
            );
            proof {
                let k = trades@.len() - 1;
                assert(k == 5 * s + i);
                assert(k % 5 == i) by (nonlinear_arith)
                    requires
                        k == 5 * s + i,
                        i < 5,
                ;
                assert(k < 5 <==> s == 0);
                assert(k < 10 <==> s <= 1);
            }
            i = i + 1;
        }
        s = s + 1;
    }
    trades
}

/// The highest and lowest prices bound every price of the trades.
pub proof fn lemma_high_low_bound(w: Seq<TradeData>)
    requires
        w.len() > 0,
    ensures
        forall|i: int| 0 <= i < w.len() ==> low_of(w) <= #[trigger] w[i].price <= high_of(w),
    decreases w.len(),
{
    if w.len() > 1 {
        lemma_high_low_bound(w.drop_last());
        assert forall|i: int| 0 <= i < w.len() implies low_of(w) <= #[trigger] w[i].price <= high_of(w) by {
            if i < w.len() - 1 {
                assert(w[i] == w.drop_last()[i]);
            }
        }
    }
}

/// A candle is consistent: its low is at most its open and close, which are at most
/// its high.
pub proof fn law_candle_consistent(symbol: String, timeframe: String, w: Seq<TradeData>, start: u64)
    requires
        w.len() > 0,
    ensures
        ({
            let c = candle_of(symbol, timeframe, w, start);
            &&& c.low <= c.open <= c.high
            &&& c.low <= c.close <= c.high
        }),
{
    lemma_high_low_bound(w);
    assert(w.last() == w[w.len() - 1]);
}

} // verus!
