//! The market data publisher: the recent executions of each symbol, candle series per
//! symbol and interval kept up to date execution by execution, and running statistics.

use vstd::prelude::*;
use crate::dashboard::keep_last;
use crate::keys::{first_pos, lemma_first_pos, lemma_first_pos_at, distinct};
use crate::metrics::wrap_add;
use crate::mdp::model::CandlestickData;
use crate::model::ExecutionReport;

verus! {

/// The intervals that each execution updates, in order.
pub open spec fn intervals() -> Seq<Seq<char>> {
    seq!["1m"@, "5m"@, "15m"@, "30m"@, "1h"@, "4h"@, "1d"@]
}

/// The intervals are all different.
pub proof fn lemma_intervals_distinct()
    ensures
        forall|a: int, b: int| 0 <= a < b < 7 ==> intervals()[a] != intervals()[b],
{
    reveal_strlit("1m");
    reveal_strlit("5m");
    reveal_strlit("15m");
    reveal_strlit("30m");
    reveal_strlit("1h");
    reveal_strlit("4h");
    reveal_strlit("1d");
    let s = intervals();
    assert(s[0].len() == 2 && s[0][0] == '1' && s[0][1] == 'm');
    assert(s[1].len() == 2 && s[1][0] == '5' && s[1][1] == 'm');
    assert(s[2].len() == 3 && s[2][0] == '1' && s[2][1] == '5');
    assert(s[3].len() == 3 && s[3][0] == '3' && s[3][1] == '0');
    assert(s[4].len() == 2 && s[4][0] == '1' && s[4][1] == 'h');
    assert(s[5].len() == 2 && s[5][0] == '4' && s[5][1] == 'h');
    assert(s[6].len() == 2 && s[6][0] == '1' && s[6][1] == 'd');
}

/// The length of an interval in seconds (60 for an unknown one).
pub open spec fn interval_seconds(interval: Seq<char>) -> u64 {
    if interval == "1m"@ {
        60
    } else if interval == "5m"@ {
        300
    } else if interval == "15m"@ {
        900
    } else if interval == "30m"@ {
        1800
    } else if interval == "1h"@ {
        3600
    } else if interval == "4h"@ {
        14400
    } else if interval == "1d"@ {
        86400
    } else {
        60
    }
}

/// How many candles a series of an interval keeps (100 for an unknown one).
pub open spec fn max_candles(interval: Seq<char>) -> nat {
    if interval == "1m"@ {
        1440
    } else if interval == "5m"@ {
        1152
    } else if interval == "15m"@ {
        960
    } else if interval == "30m"@ {
        1008
    } else if interval == "1h"@ {
        720
    } else if interval == "4h"@ {
        720
    } else if interval == "1d"@ {
        365
    } else {
        100
    }
}

fn seconds_and_max(interval: &str) -> (r: (u64, usize))
    ensures
        r.0 == interval_seconds(interval@),
        r.1 == max_candles(interval@),
{
    let s = String::from_str(interval);
    if s == String::from_str("1m") {
        (60, 1440)
    } else if s == String::from_str("5m") {
        (300, 1152)
    } else if s == String::from_str("15m") {
        (900, 960)
    } else if s == String::from_str("30m") {
        (1800, 1008)
    } else if s == String::from_str("1h") {
        (3600, 720)
    } else if s == String::from_str("4h") {
        (14400, 720)
    } else if s == String::from_str("1d") {
        (86400, 365)
    } else {
        (60, 100)
    }
}

/// The start of the candle of `interval` that holds `timestamp`.
pub open spec fn candle_time(timestamp: u64, interval: Seq<char>) -> u64 {
    ((timestamp / interval_seconds(interval)) * interval_seconds(interval)) as u64
}

/// The start of the candle of `interval` that holds `timestamp` (in seconds): the
/// timestamp rounded down to a whole number of intervals.
pub fn get_candle_time(timestamp: u64, interval: &str) -> (r: u64)
    ensures
        r == candle_time(timestamp, interval@),
        r <= timestamp,
{
    let (secs, _) = seconds_and_max(interval);
    proof {
        assert((timestamp / secs) * secs <= timestamp) by (nonlinear_arith)
            requires
                secs > 0,
        ;
    }
    (timestamp / secs) * secs
}

/// Keeps the last `max_candles(interval)` candles.
pub fn limit_candles(candles: &mut Vec<CandlestickData>, interval: &str)
    ensures
        final(candles)@ == keep_last(old(candles)@, max_candles(interval@)),
{
    let (_, max) = seconds_and_max(interval);
    if candles.len() > max {
        let drop = candles.len() - max;
        let mut kept: Vec<CandlestickData> = Vec::new();
        let len = candles.len();
        let mut i: usize = drop;
        while i < len
            invariant
                len == candles@.len(),
                drop <= i <= len,
                kept@ == candles@.subrange(drop as int, i as int),
            decreases len - i,
        {
            kept.push(candles[i]);
            proof {
                assert(candles@.subrange(drop as int, i + 1) =~= candles@.subrange(drop as int, i as int).push(
                    candles@[i as int],
                ));
            }
            i = i + 1;
        }
        *candles = kept;
    }
}

/// A new candle of one execution at `t`.
pub open spec fn first_candle(t: u64, price: u64, quantity: u64) -> CandlestickData {
    CandlestickData {
        open_time: t,
        close_time: t,
        open: price,
        high: price,
        low: price,
        close: price,
        volume: quantity,
        trade_count: 1,
    }
}

/// A series after an execution at price `price` and quantity `quantity` in the candle
/// starting at `t`: the last candle takes it when it is that candle (high, low, close,
/// volume and count move); otherwise a new candle starts, and the series keeps its
/// last `max` candles.
pub open spec fn series_step(c: Seq<CandlestickData>, t: u64, price: u64, quantity: u64, max: nat) -> Seq<
    CandlestickData,
> {
    if c.len() == 0 {
        seq![first_candle(t, price, quantity)]
    } else if c.last().close_time == t {
        let l = c.last();
        c.update(
            c.len() - 1,
            CandlestickData {
                high: if price > l.high { price } else { l.high },
                low: if price < l.low { price } else { l.low },
                close: price,
                volume: wrap_add(l.volume, quantity),
                trade_count: wrap_add(l.trade_count, 1),
                ..l
            },
        )
    } else {
        keep_last(c.push(first_candle(t, price, quantity)), max)
    }
}

/// A series of candles of one symbol and interval.
#[derive(Debug)]
pub struct CandleSeries {
    pub symbol: String,
    pub interval: String,
    pub candles: Vec<CandlestickData>,
}

/// The symbols and intervals of series.
pub open spec fn series_keys(s: Seq<CandleSeries>) -> Seq<(Seq<char>, Seq<char>)> {
    s.map_values(|x: CandleSeries| (x.symbol@, x.interval@))
}

/// The candles of a symbol and interval (none when there is no series).
pub open spec fn candles_of(s: Seq<CandleSeries>, symbol: Seq<char>, interval: Seq<char>) -> Seq<CandlestickData> {
    let k = first_pos(series_keys(s), (symbol, interval));
    if k < s.len() { s[k as int].candles@ } else { Seq::empty() }
}

/// Running statistics of a symbol.
#[derive(Debug)]
pub struct SymbolStatistics {
    pub symbol: String,
    pub timestamp: u64,
    pub open_price_24h: Option<u64>,
    pub high_price_24h: Option<u64>,
    pub low_price_24h: Option<u64>,
    pub last_price: Option<u64>,
    pub volume_24h: u64,
    pub bid_price: Option<u64>,
    pub ask_price: Option<u64>,
}

impl Clone for SymbolStatistics {
    fn clone(&self) -> (r: Self)
        ensures
            r == *self,
    {
        SymbolStatistics {
            symbol: self.symbol.clone(),
            timestamp: self.timestamp,
            open_price_24h: self.open_price_24h,
            high_price_24h: self.high_price_24h,
            low_price_24h: self.low_price_24h,
            last_price: self.last_price,
            volume_24h: self.volume_24h,
            bid_price: self.bid_price,
            ask_price: self.ask_price,
        }
    }
}

/// Statistics after an execution: the first one opens them; high and low follow the
/// price, volume adds the quantity, the price is the last one and the execution's time
/// the time of the statistics.
pub open spec fn stats_step(s: Option<SymbolStatistics>, e: ExecutionReport) -> SymbolStatistics {
    let base = match s {
        Some(x) => x,
        None => SymbolStatistics {
            symbol: e.symbol,
            timestamp: e.timestamp,
            open_price_24h: None,
            high_price_24h: None,
            low_price_24h: None,
            last_price: Some(e.price),
            volume_24h: 0,
            bid_price: None,
            ask_price: None,
        },
    };
    SymbolStatistics {
        high_price_24h: match base.high_price_24h {
            Some(h) => if e.price > h { Some(e.price) } else { Some(h) },
            None => Some(e.price),
        },
        low_price_24h: match base.low_price_24h {
            Some(l) => if e.price < l { Some(e.price) } else { Some(l) },
            None => Some(e.price),
        },
        volume_24h: wrap_add(base.volume_24h, e.quantity),
        last_price: Some(e.price),
        open_price_24h: match base.open_price_24h {
            Some(o) => Some(o),
            None => Some(e.price),
        },
        timestamp: e.timestamp,
        ..base
    }
}

/// The symbols of a list of statistics.
pub open spec fn stats_keys(s: Seq<SymbolStatistics>) -> Seq<Seq<char>> {
    s.map_values(|x: SymbolStatistics| x.symbol@)
}

/// The statistics of a symbol, if there are some.
pub open spec fn stats_of(s: Seq<SymbolStatistics>, symbol: Seq<char>) -> Option<SymbolStatistics> {
    let k = first_pos(stats_keys(s), symbol);
    if k < s.len() { Some(s[k as int]) } else { None }
}

/// The symbols of the execution lists.
pub open spec fn exec_keys(s: Seq<(String, Vec<ExecutionReport>)>) -> Seq<Seq<char>> {
    s.map_values(|p: (String, Vec<ExecutionReport>)| p.0@)
}

/// The executions of a symbol (none when there are none).
pub open spec fn executions_of(s: Seq<(String, Vec<ExecutionReport>)>, symbol: Seq<char>) -> Seq<ExecutionReport> {
    let k = first_pos(exec_keys(s), symbol);
    if k < s.len() { s[k as int].1@ } else { Seq::empty() }
}

/// The market data publisher.
pub struct MarketDataPublisher {
    executions: Vec<(String, Vec<ExecutionReport>)>,
    candlesticks: Vec<CandleSeries>,
    statistics: Vec<SymbolStatistics>,
    max_executions: usize,
}

impl MarketDataPublisher {
    /// The execution lists by symbol.
    pub closed spec fn execs(&self) -> Seq<(String, Vec<ExecutionReport>)> {
        self.executions@
    }

    /// The candle series.
    pub closed spec fn series(&self) -> Seq<CandleSeries> {
        self.candlesticks@
    }

    /// The statistics by symbol.
    pub closed spec fn stats(&self) -> Seq<SymbolStatistics> {
        self.statistics@
    }

    /// How many executions a symbol keeps.
    pub closed spec fn max_execs(&self) -> usize {
        self.max_executions
    }

    /// Keys are all different and each symbol keeps at most the most executions.
    pub open spec fn wf(&self) -> bool {
        &&& distinct(exec_keys(self.execs()))
        &&& distinct(series_keys(self.series()))
        &&& distinct(stats_keys(self.stats()))
        &&& forall|i: int| 0 <= i < self.execs().len() ==> (#[trigger] self.execs()[i]).1@.len() <= self.max_execs()
    }

    /// A publisher with no data that keeps `max_executions` executions a symbol.
    pub fn new(max_executions: usize) -> (r: Self)
        ensures
            r.wf(),
            r.execs().len() == 0,
            r.series().len() == 0,
            r.stats().len() == 0,
            r.max_execs() == max_executions,
    {
        MarketDataPublisher {
            executions: Vec::new(),
            candlesticks: Vec::new(),
            statistics: Vec::new(),
            max_executions,
        }
    }

    fn find_exec(&self, symbol: &String) -> (r: usize)
        ensures
            r == first_pos(exec_keys(self.execs()), symbol@),
    {
        let ghost ks = exec_keys(self.executions@);
        proof {
            lemma_first_pos(ks, symbol@);
        }
        let n = self.executions.len();
        let mut k: usize = 0;
        while k < n
            invariant
                n == self.executions@.len(),
                ks == exec_keys(self.executions@),
                k <= n,
                forall|j: int| 0 <= j < k ==> ks[j] != symbol@,
            decreases n - k,
        {
            if self.executions[k].0 == *symbol {
                proof {
                    lemma_first_pos_at(ks, symbol@, k as int);
                }
                return k;
            }
            k = k + 1;
        }
        proof {
            lemma_first_pos_at(ks, symbol@, n as int);
        }
        n
    }

    fn find_series(&self, symbol: &String, interval: &String) -> (r: usize)
        ensures
            r == first_pos(series_keys(self.series()), (symbol@, interval@)),
    {
        let ghost ks = series_keys(self.candlesticks@);
        proof {
            lemma_first_pos(ks, (symbol@, interval@));
        }
        let n = self.candlesticks.len();
        let mut k: usize = 0;
        while k < n
            invariant
                n == self.candlesticks@.len(),
                ks == series_keys(self.candlesticks@),
                k <= n,
                forall|j: int| 0 <= j < k ==> ks[j] != (symbol@, interval@),
            decreases n - k,
        {
            if self.candlesticks[k].symbol == *symbol && self.candlesticks[k].interval == *interval {
                proof {
                    lemma_first_pos_at(ks, (symbol@, interval@), k as int);
                }
                return k;
            }
            k = k + 1;
        }
        proof {
            lemma_first_pos_at(ks, (symbol@, interval@), n as int);
        }
        n
    }

    fn find_stats(&self, symbol: &String) -> (r: usize)
        ensures
            r == first_pos(stats_keys(self.stats()), symbol@),
    {
        let ghost ks = stats_keys(self.statistics@);
        proof {
            lemma_first_pos(ks, symbol@);
        }
        let n = self.statistics.len();
        let mut k: usize = 0;
        while k < n
            invariant
                n == self.statistics@.len(),
                ks == stats_keys(self.statistics@),
                k <= n,
                forall|j: int| 0 <= j < k ==> ks[j] != symbol@,
            decreases n - k,
        {
            if self.statistics[k].symbol == *symbol {
                proof {
                    lemma_first_pos_at(ks, symbol@, k as int);
                }
                return k;
            }
            k = k + 1;
        }
        proof {
            lemma_first_pos_at(ks, symbol@, n as int);
        }
        n
    }

    /// The position of the series of `symbol` and `interval`, made empty when missing.
    fn series_slot(&mut self, symbol: &String, interval: &String) -> (r: usize)
        requires
            old(self).wf(),
        ensures
            final(self).wf(),
            r < final(self).series().len(),
            final(self).series()[r as int].symbol@ == symbol@,
            final(self).series()[r as int].interval@ == interval@,
            final(self).series()[r as int].candles@ == candles_of(old(self).series(), symbol@, interval@),
            forall|s: Seq<char>, iv: Seq<char>| candles_of(final(self).series(), s, iv) == candles_of(old(self).series(), s, iv),
            first_pos(series_keys(final(self).series()), (symbol@, interval@)) == r,
            final(self).execs() == old(self).execs(),
            final(self).stats() == old(self).stats(),
            final(self).max_execs() == old(self).max_execs(),
    {
        let k = self.find_series(symbol, interval);
        proof {
            lemma_first_pos(series_keys(self.candlesticks@), (symbol@, interval@));
        }
        if k < self.candlesticks.len() {
            return k;
        }
        let ghost before = self.candlesticks@;
        self.candlesticks.push(CandleSeries { symbol: symbol.clone(), interval: interval.clone(), candles: Vec::new() });
        proof {
            let ks = series_keys(self.candlesticks@);
            assert(ks.drop_last() =~= series_keys(before));
            assert(ks[ks.len() - 1] == (symbol@, interval@));
            assert forall|i: int, j: int| 0 <= i < j < ks.len() implies ks[i] != ks[j] by {
                assert(ks[i] == series_keys(before)[i]);
                if j < ks.len() - 1 {
                    assert(ks[j] == series_keys(before)[j]);
                }
            }
            lemma_first_pos_at(ks, (symbol@, interval@), k as int);
            assert forall|s: Seq<char>, iv: Seq<char>| candles_of(self.candlesticks@, s, iv) == candles_of(before, s, iv) by {
                lemma_first_pos(series_keys(before), (s, iv));
                let p = first_pos(series_keys(before), (s, iv));
                if p < before.len() {
                    assert(ks[p as int] == series_keys(before)[p as int]);
                    assert forall|j: int| 0 <= j < p implies ks[j] != (s, iv) by {
                        assert(ks[j] == series_keys(before)[j]);
                    }
                    lemma_first_pos_at(ks, (s, iv), p as int);
                } else {
                    if (s, iv) == (symbol@, interval@) {
                    } else {
                        assert forall|j: int| 0 <= j < ks.len() implies ks[j] != (s, iv) by {
                            if j < before.len() {
                                assert(ks[j] == series_keys(before)[j]);
                            }
                        }
                        lemma_first_pos_at(ks, (s, iv), ks.len() as int);
                    }
                }
            }
        }
        k
    }

    /// Updates the series of each interval of the execution's symbol with it (see
    /// `series_step`), interval by interval.
    fn update_candlesticks(&mut self, execution: &ExecutionReport)
        requires
            old(self).wf(),
        ensures
            final(self).wf(),
            forall|s: Seq<char>, iv: Seq<char>| #[trigger] candles_of(final(self).series(), s, iv) == if s
                == execution.symbol@ && intervals().contains(iv) {
                series_step(
                    candles_of(old(self).series(), s, iv),
                    candle_time(execution.timestamp, iv),
                    execution.price,
                    execution.quantity,
                    max_candles(iv),
                )
            } else {
                candles_of(old(self).series(), s, iv)
            },
            final(self).execs() == old(self).execs(),
            final(self).stats() == old(self).stats(),
            final(self).max_execs() == old(self).max_execs(),
    {
        let mut names: Vec<String> = Vec::new();
        names.push(String::from_str("1m"));
        names.push(String::from_str("5m"));
        names.push(String::from_str("15m"));
        names.push(String::from_str("30m"));
        names.push(String::from_str("1h"));
        names.push(String::from_str("4h"));
        names.push(String::from_str("1d"));
        let ghost ivs = names@.map_values(|x: String| x@);
        proof {
            assert(ivs =~= intervals());
        }
        let mut i: usize = 0;
        while i < 7
            invariant
                names@.len() == 7,
                ivs == names@.map_values(|x: String| x@),
                ivs == intervals(),
                i <= 7,
                self.wf(),
                forall|s: Seq<char>, iv: Seq<char>| #[trigger] candles_of(self.series(), s, iv) == if s
                    == execution.symbol@ && ivs.take(i as int).contains(iv) {
                    series_step(
                        candles_of(old(self).series(), s, iv),
                        candle_time(execution.timestamp, iv),
                        execution.price,
                        execution.quantity,
                        max_candles(iv),
                    )
                } else {
                    candles_of(old(self).series(), s, iv)
                },
                self.execs() == old(self).execs(),
                self.stats() == old(self).stats(),
                self.max_execs() == old(self).max_execs(),
            decreases 7 - i,
        {
            let ghost before = self.candlesticks@;
            let k = self.series_slot(&execution.symbol, &names[i]);
            let ghost mid = self.candlesticks@;
            let t = get_candle_time(execution.timestamp, names[i].as_str());
            let price = execution.price;
            let quantity = execution.quantity;
            let n = self.candlesticks[k].candles.len();
            if n > 0 && self.candlesticks[k].candles[n - 1].close_time == t {
                let l = self.candlesticks[k].candles[n - 1];
                let updated = CandlestickData {
                    high: if price > l.high { price } else { l.high },
                    low: if price < l.low { price } else { l.low },
                    close: price,
                    volume: l.volume.wrapping_add(quantity),
                    trade_count: l.trade_count.wrapping_add(1),
                    ..l
                };
                self.candlesticks[k].candles.set(n - 1, updated);
            } else {
                let c = CandlestickData {
                    open_time: t,
                    close_time: t,
                    open: price,
                    high: price,
                    low: price,
                    close: price,
                    volume: quantity,
                    trade_count: 1,
                };
                self.candlesticks[k].candles.push(c);
                if n > 0 {
                    limit_candles(&mut self.candlesticks[k].candles, names[i].as_str());
                }
            }
            proof {
                let iv = ivs[i as int];
                let after = self.candlesticks@;
                assert(series_keys(after) =~= series_keys(mid));
                assert forall|j: int| 0 <= j < after.len() && j != k implies after[j] == mid[j] by {}
                assert(after[k as int].candles@ == series_step(
                    candles_of(before, execution.symbol@, iv),
                    candle_time(execution.timestamp, iv),
                    price,
                    quantity,
                    max_candles(iv),
                ));
                assert forall|s: Seq<char>, v: Seq<char>| #[trigger] candles_of(after, s, v) == if (s, v)
                    == (execution.symbol@, iv) {
                    after[k as int].candles@
                } else {
                    candles_of(mid, s, v)
                } by {
                    lemma_first_pos(series_keys(mid), (s, v));
                }
                let pre = ivs.take(i as int);
                let post = ivs.take(i + 1);
                assert(post =~= pre.push(iv));
                assert forall|v: Seq<char>| post.contains(v) <==> (pre.contains(v) || v == iv) by {
                    if post.contains(v) {
                        let j = choose|j: int| 0 <= j < post.len() && #[trigger] post[j] == v;
                        if j < i {
                            assert(pre[j] == v);
                        }
                    }
                    if pre.contains(v) {
                        let j = choose|j: int| 0 <= j < pre.len() && #[trigger] pre[j] == v;
                        assert(post[j] == v);
                    }
                    if v == iv {
                        assert(post[i as int] == v);
                    }
                }
                assert(!pre.contains(iv)) by {
                    lemma_intervals_distinct();
                    if pre.contains(iv) {
                        let j = choose|j: int| 0 <= j < pre.len() && #[trigger] pre[j] == iv;
                        assert(ivs[j] != ivs[i as int]);
                    }
                }
            }
            i = i + 1;
        }
        proof {
            assert(ivs.take(7) =~= ivs);
        }
    }

    fn update_statistics(&mut self, execution: &ExecutionReport)
        requires
            old(self).wf(),
        ensures
            final(self).wf(),
            stats_of(final(self).stats(), execution.symbol@) == Some(
                stats_step(stats_of(old(self).stats(), execution.symbol@), *execution),
            ),
            forall|s: Seq<char>| s != execution.symbol@ ==> #[trigger] stats_of(final(self).stats(), s) == stats_of(
                old(self).stats(),
                s,
            ),
            final(self).execs() == old(self).execs(),
            final(self).series() == old(self).series(),
            final(self).max_execs() == old(self).max_execs(),
    {
        let k = self.find_stats(&execution.symbol);
        let ghost before = self.statistics@;
        proof {
            lemma_first_pos(stats_keys(before), execution.symbol@);
        }
        let base = if k < self.statistics.len() {
            self.statistics[k].clone()
        } else {
            SymbolStatistics {
                symbol: execution.symbol.clone(),
                timestamp: execution.timestamp,
                open_price_24h: None,
                high_price_24h: None,
                low_price_24h: None,
                last_price: Some(execution.price),
                volume_24h: 0,
                bid_price: None,
                ask_price: None,
            }
        };
        let price = execution.price;
        let next = SymbolStatistics {
            high_price_24h: match base.high_price_24h {
                Some(h) => if price > h { Some(price) } else { Some(h) },
                None => Some(price),
            },
            low_price_24h: match base.low_price_24h {
                Some(l) => if price < l { Some(price) } else { Some(l) },
                None => Some(price),
            },
            volume_24h: base.volume_24h.wrapping_add(execution.quantity),
            last_price: Some(price),
            open_price_24h: match base.open_price_24h {
                Some(o) => Some(o),
                None => Some(price),
            },
            timestamp: execution.timestamp,
            ..base
        };
        if k < self.statistics.len() {
            self.statistics.set(k, next);
        } else {
            self.statistics.push(next);
        }
        proof {
            let after = self.statistics@;
            let ks = stats_keys(after);
            if k < before.len() {
                assert(ks =~= stats_keys(before));
            } else {
                assert(ks.drop_last() =~= stats_keys(before));
                assert(ks[ks.len() - 1] == execution.symbol@);
                assert forall|i: int, j: int| 0 <= i < j < ks.len() implies ks[i] != ks[j] by {
                    assert(ks[i] == stats_keys(before)[i]);
                    if j < ks.len() - 1 {
                        assert(ks[j] == stats_keys(before)[j]);
                    }
                }
            }
            lemma_first_pos(ks, execution.symbol@);
            lemma_first_pos_at(ks, execution.symbol@, k as int);
            assert forall|s: Seq<char>| s != execution.symbol@ implies #[trigger] stats_of(after, s) == stats_of(before, s) by {
                lemma_first_pos(stats_keys(before), s);
                let p = first_pos(stats_keys(before), s);
                if p < before.len() {
                    assert(ks[p as int] == stats_keys(before)[p as int]);
                    assert forall|j: int| 0 <= j < p implies ks[j] != s by {
                        assert(ks[j] == stats_keys(before)[j]);
                    }
                    lemma_first_pos_at(ks, s, p as int);
                } else {
                    assert forall|j: int| 0 <= j < ks.len() implies ks[j] != s by {
                        if j < before.len() {
                            assert(ks[j] == stats_keys(before)[j]);
                        }
                    }
                    lemma_first_pos_at(ks, s, ks.len() as int);
                }
            }
        }
    }

    fn store_execution(&mut self, execution: ExecutionReport)
        requires
            old(self).wf(),
        ensures
            final(self).wf(),
            executions_of(final(self).execs(), execution.symbol@) == keep_last(
                executions_of(old(self).execs(), execution.symbol@).push(execution),
                old(self).max_execs() as nat,
            ),
            forall|s: Seq<char>| s != execution.symbol@ ==> #[trigger] executions_of(final(self).execs(), s)
                == executions_of(old(self).execs(), s),
            final(self).series() == old(self).series(),
            final(self).stats() == old(self).stats(),
            final(self).max_execs() == old(self).max_execs(),
    {
        let k = self.find_exec(&execution.symbol);
        let ghost before = self.executions@;
        let ghost sym = execution.symbol@;
        proof {
            lemma_first_pos(exec_keys(before), sym);
        }
        if k < self.executions.len() {
            let ghost s0 = before[k as int].1@;
            let max = self.max_executions;
            let pair = &mut self.executions[k];
            pair.1.push(execution);
            if pair.1.len() > max {
                pair.1.remove(0);
            }
            proof {
                assert(s0.len() <= max);
                let s1 = s0.push(execution);
                if s1.len() > max {
                    assert(s1.remove(0) =~= s1.skip(s1.len() - max));
                }
            }
        } else {
            let mut v: Vec<ExecutionReport> = Vec::new();
            let ghost e = execution;
            let s = execution.symbol.clone();
            v.push(execution);
            if v.len() > self.max_executions {
                v.remove(0);
            }
            self.executions.push((s, v));
            proof {
                let s1 = seq![e];
                assert(Seq::<ExecutionReport>::empty().push(e) =~= s1);
                if 1 > self.max_executions {
                    assert(s1.remove(0) =~= s1.skip(1));
                }
            }
        }
        proof {
            let after = self.executions@;
            let ks = exec_keys(after);
            if k < before.len() {
                assert(ks =~= exec_keys(before));
            } else {
                assert(ks.drop_last() =~= exec_keys(before));
                assert(ks[ks.len() - 1] == sym);
                assert forall|i: int, j: int| 0 <= i < j < ks.len() implies ks[i] != ks[j] by {
                    assert(ks[i] == exec_keys(before)[i]);
                    if j < ks.len() - 1 {
                        assert(ks[j] == exec_keys(before)[j]);
                    }
                }
            }
            assert forall|i: int| 0 <= i < after.len() implies (#[trigger] after[i]).1@.len() <= self.max_executions by {
                if i < before.len() && i != k {
                    assert(after[i] == before[i]);
                }
            }
            lemma_first_pos(ks, sym);
            lemma_first_pos_at(ks, sym, k as int);
            assert forall|s: Seq<char>| s != sym implies #[trigger] executions_of(after, s) == executions_of(before, s) by {
                lemma_first_pos(exec_keys(before), s);
                let p = first_pos(exec_keys(before), s);
                if p < before.len() {
                    assert(ks[p as int] == exec_keys(before)[p as int]);
                    assert forall|j: int| 0 <= j < p implies ks[j] != s by {
                        assert(ks[j] == exec_keys(before)[j]);
                    }
                    lemma_first_pos_at(ks, s, p as int);
                } else {
                    assert forall|j: int| 0 <= j < ks.len() implies ks[j] != s by {
                        if j < before.len() {
                            assert(ks[j] == exec_keys(before)[j]);
                        }
                    }
                    lemma_first_pos_at(ks, s, ks.len() as int);
                }
            }
        }
    }

    /// Takes in an execution: it joins its symbol's executions (which keep the most
    /// executions), updates the candles of every interval and the symbol's statistics.
    pub fn process_execution(&mut self, execution: ExecutionReport)
        requires
            old(self).wf(),
        ensures
            final(self).wf(),
            executions_of(final(self).execs(), execution.symbol@) == keep_last(
                executions_of(old(self).execs(), execution.symbol@).push(execution),
                old(self).max_execs() as nat,
            ),
            forall|s: Seq<char>| s != execution.symbol@ ==> #[trigger] executions_of(final(self).execs(), s)
                == executions_of(old(self).execs(), s),
            forall|s: Seq<char>, iv: Seq<char>| #[trigger] candles_of(final(self).series(), s, iv) == if s
                == execution.symbol@ && intervals().contains(iv) {
                series_step(
                    candles_of(old(self).series(), s, iv),
                    candle_time(execution.timestamp, iv),
                    execution.price,
                    execution.quantity,
                    max_candles(iv),
                )
            } else {
                candles_of(old(self).series(), s, iv)
            },
            stats_of(final(self).stats(), execution.symbol@) == Some(
                stats_step(stats_of(old(self).stats(), execution.symbol@), execution),
            ),
            forall|s: Seq<char>| s != execution.symbol@ ==> #[trigger] stats_of(final(self).stats(), s) == stats_of(
                old(self).stats(),
                s,
            ),
            final(self).max_execs() == old(self).max_execs(),
    {
        self.update_candlesticks(&execution);
        self.update_statistics(&execution);
        self.store_execution(execution);
    }

    /// Adds a finished candle at the end of a series.
    pub fn push_candle(&mut self, symbol: &String, interval: &String, candle: CandlestickData)
        requires
            old(self).wf(),
        ensures
            final(self).wf(),
            forall|s: Seq<char>, iv: Seq<char>| #[trigger] candles_of(final(self).series(), s, iv) == if (s, iv)
                == (symbol@, interval@) {
                candles_of(old(self).series(), s, iv).push(candle)
            } else {
                candles_of(old(self).series(), s, iv)
            },
            final(self).execs() == old(self).execs(),
            final(self).stats() == old(self).stats(),
            final(self).max_execs() == old(self).max_execs(),
    {
        let k = self.series_slot(symbol, interval);
        let ghost mid = self.candlesticks@;
        self.candlesticks[k].candles.push(candle);
        proof {
            let after = self.candlesticks@;
            assert(series_keys(after) =~= series_keys(mid));
            assert forall|s: Seq<char>, v: Seq<char>| #[trigger] candles_of(after, s, v) == if (s, v) == (
                symbol@,
                interval@,
            ) {
                candles_of(old(self).series(), s, v).push(candle)
            } else {
                candles_of(old(self).series(), s, v)
            } by {
                lemma_first_pos(series_keys(mid), (s, v));
            }
        }
    }

    /// The last `limit` executions of `symbol`, oldest first.
    pub fn get_executions(&self, symbol: &str, limit: usize) -> (r: Vec<ExecutionReport>)
        ensures
            r@ == keep_last(executions_of(self.execs(), symbol@), limit as nat),
    {
        let sym = String::from_str(symbol);
        let k = self.find_exec(&sym);
        if k >= self.executions.len() {
            return Vec::new();
        }
        let v = &self.executions[k].1;
        let start = if v.len() > limit { v.len() - limit } else { 0 };
        let mut out: Vec<ExecutionReport> = Vec::new();
        let mut i = start;
        while i < v.len()
            invariant
                start <= i <= v@.len(),
                out@ == v@.subrange(start as int, i as int),
            decreases v@.len() - i,
        {
            out.push(v[i].clone());
            proof {
                assert(v@.subrange(start as int, i + 1) =~= v@.subrange(start as int, i as int).push(v@[i as int]));
            }
            i = i + 1;
        }
        proof {
            if v@.len() > limit {
                assert(v@.subrange(start as int, v@.len() as int) =~= v@.skip(v@.len() - limit));
            } else {
                assert(v@.subrange(0, v@.len() as int) =~= v@);
            }
        }
        out
    }

    /// The last `limit` candles of `symbol` and `interval`, oldest first.
    pub fn get_candles(&self, symbol: &str, interval: &str, limit: usize) -> (r: Vec<CandlestickData>)
        ensures
            r@ == keep_last(candles_of(self.series(), symbol@, interval@), limit as nat),
    {
        let sym = String::from_str(symbol);
        let iv = String::from_str(interval);
        let k = self.find_series(&sym, &iv);
        if k >= self.candlesticks.len() {
            return Vec::new();
        }
        let v = &self.candlesticks[k].candles;
        let start = if v.len() > limit { v.len() - limit } else { 0 };
        let mut out: Vec<CandlestickData> = Vec::new();
        let mut i = start;
        while i < v.len()
            invariant
                start <= i <= v@.len(),
                out@ == v@.subrange(start as int, i as int),
            decreases v@.len() - i,
        {
            out.push(v[i]);
            proof {
                assert(v@.subrange(start as int, i + 1) =~= v@.subrange(start as int, i as int).push(v@[i as int]));
            }
            i = i + 1;
        }
        proof {
            if v@.len() > limit {
                assert(v@.subrange(start as int, v@.len() as int) =~= v@.skip(v@.len() - limit));
            } else {
                assert(v@.subrange(0, v@.len() as int) =~= v@);
            }
        }
        out
    }

    /// A copy of the statistics of `symbol`, if there are some.
    pub fn get_statistics(&self, symbol: &str) -> (r: Option<SymbolStatistics>)
        ensures
            r == stats_of(self.stats(), symbol@),
    {
        let sym = String::from_str(symbol);
        let k = self.find_stats(&sym);
        if k < self.statistics.len() {
            Some(self.statistics[k].clone())
        } else {
            None
        }
    }
}

/// A candle whose low is at most its open and close, which are at most its high.
pub open spec fn candle_ok(c: CandlestickData) -> bool {
    c.low <= c.open <= c.high && c.low <= c.close <= c.high
}

/// An execution adds its quantity to its symbol's volume (modulo 2^64, as the counter
/// wraps), becomes the last price, raises the high to at least its price and lowers
/// the low to at most it; the first execution of a symbol starts from a volume of 0.
pub proof fn law_stats_volume_adds(s: Option<SymbolStatistics>, e: ExecutionReport)
    ensures
        ({
            let prior: u64 = match s { Some(x) => x.volume_24h, None => 0 };
            let r = stats_step(s, e);
            &&& r.volume_24h == (prior + e.quantity) % 0x1_0000_0000_0000_0000
            &&& r.last_price == Some(e.price)
            &&& r.high_price_24h matches Some(h) && h >= e.price
            &&& r.low_price_24h matches Some(l) && l <= e.price
            &&& match s {
                Some(x) => (x.high_price_24h matches Some(h0) ==> r.high_price_24h->0 >= h0) && (
                x.low_price_24h matches Some(l0) ==> r.low_price_24h->0 <= l0),
                None => true,
            }
            &&& (r.high_price_24h->0 == e.price || (s matches Some(x) && x.high_price_24h == r.high_price_24h))
            &&& (r.low_price_24h->0 == e.price || (s matches Some(x) && x.low_price_24h == r.low_price_24h))
            &&& r.open_price_24h == (match s {
                Some(x) => if x.open_price_24h is Some { x.open_price_24h } else { Some(e.price) },
                None => Some(e.price),
            })
            &&& r.timestamp == e.timestamp
        }),
{
    let prior: u64 = match s { Some(x) => x.volume_24h, None => 0 };
    let r = stats_step(s, e);
    assert(r.volume_24h == wrap_add(prior, e.quantity));
    assert(r.volume_24h == (prior + e.quantity) % 0x1_0000_0000_0000_0000);
    assert(r.last_price == Some(e.price));
    assert(r.high_price_24h matches Some(h) && h >= e.price);
    assert(r.low_price_24h matches Some(l) && l <= e.price);
}

/// Two executions of a symbol add both their quantities to its volume.
pub proof fn law_stats_volume_sums(s: Option<SymbolStatistics>, e1: ExecutionReport, e2: ExecutionReport)
    ensures
        ({
            let prior: u64 = match s { Some(x) => x.volume_24h, None => 0 };
            stats_step(Some(stats_step(s, e1)), e2).volume_24h == (prior + e1.quantity + e2.quantity)
                % 0x1_0000_0000_0000_0000
        }),
{
    law_stats_volume_adds(s, e1);
    law_stats_volume_adds(Some(stats_step(s, e1)), e2);
    let prior: u64 = match s { Some(x) => x.volume_24h, None => 0 };
    let v1 = stats_step(s, e1).volume_24h;
    assert(v1 == (prior + e1.quantity) % 0x1_0000_0000_0000_0000);
    assert((v1 + e2.quantity) % 0x1_0000_0000_0000_0000 == (prior + e1.quantity + e2.quantity)
        % 0x1_0000_0000_0000_0000) by (nonlinear_arith)
        requires
            v1 == (prior + e1.quantity) % 0x1_0000_0000_0000_0000,
    ;
}

/// After an execution, the last candle of the series is the one it fell into, and its
/// close is the execution's price; its high and low enclose that price. Joining the
/// last candle keeps that candle's open and adds the quantity to its volume (modulo
/// 2^64); starting a new candle opens it at the price with the quantity as volume.
pub proof fn law_candle_closes_at_last_price(c: Seq<CandlestickData>, t: u64, price: u64, quantity: u64, max: nat)
    requires
        max >= 1,
    ensures
        ({
            let r = series_step(c, t, price, quantity, max);
            &&& r.len() > 0
            &&& r.last().close == price
            &&& r.last().close_time == t
            &&& r.last().low <= price <= r.last().high
            &&& (c.len() > 0 && c.last().close_time == t ==> {
                &&& r.len() == c.len()
                &&& r.last().open == c.last().open
                &&& r.last().open_time == c.last().open_time
                &&& r.last().high == (if price > c.last().high { price } else { c.last().high })
                &&& r.last().low == (if price < c.last().low { price } else { c.last().low })
                &&& r.last().volume == (c.last().volume + quantity) % 0x1_0000_0000_0000_0000
                &&& r.last().trade_count == (c.last().trade_count + 1) % 0x1_0000_0000_0000_0000
                &&& forall|i: int| 0 <= i < c.len() - 1 ==> #[trigger] r[i] == c[i]
            })
            &&& (!(c.len() > 0 && c.last().close_time == t) ==> {
                &&& r.last().open == price && r.last().high == price && r.last().low == price
                &&& r.last().volume == quantity && r.last().trade_count == 1
                &&& r.last().open_time == t
                &&& r.len() == (if c.len() + 1 > max { max as int } else { c.len() + 1 as int })
            })
        }),
{
    let r = series_step(c, t, price, quantity, max);
    if c.len() > 0 && c.last().close_time == t {
        assert(r.last() == r[c.len() - 1]);
    } else if c.len() > 0 {
        let p = c.push(first_candle(t, price, quantity));
        if p.len() > max {
            assert(r == p.skip(p.len() - max));
            assert(r.last() == p[p.len() - 1]);
        }
    }
}

/// Every execution keeps the candles consistent and the series within its bound: when
/// all candles are consistent before, all are after, and a series of at most `max`
/// candles (`max` at least 1) stays within `max`.
pub proof fn law_series_step_keeps_candles(c: Seq<CandlestickData>, t: u64, price: u64, quantity: u64, max: nat)
    requires
        forall|i: int| 0 <= i < c.len() ==> candle_ok(#[trigger] c[i]),
        max >= 1,
    ensures
        forall|i: int| 0 <= i < series_step(c, t, price, quantity, max).len() ==> candle_ok(
            #[trigger] series_step(c, t, price, quantity, max)[i]),
        c.len() <= max ==> series_step(c, t, price, quantity, max).len() <= max,
{
    let r = series_step(c, t, price, quantity, max);
    if c.len() == 0 {
    } else if c.last().close_time == t {
        assert(candle_ok(c[c.len() - 1]));
        assert forall|i: int| 0 <= i < r.len() implies candle_ok(#[trigger] r[i]) by {
            if i < c.len() - 1 {
                assert(r[i] == c[i]);
            }
        }
    } else {
        let p = c.push(first_candle(t, price, quantity));
        assert forall|i: int| 0 <= i < r.len() implies candle_ok(#[trigger] r[i]) by {
            if p.len() > max {
                assert(r[i] == p[p.len() - max + i]);
                if p.len() - max + i < c.len() {
                    assert(p[p.len() - max + i] == c[p.len() - max + i]);
                }
            } else {
                if i < c.len() {
                    assert(r[i] == c[i]);
                }
            }
        }
    }
}

} // verus!
