//! The cache in front of candles and statistics: a store with expiry standing for
//! Redis, a local memory cache over it, and counts of hits, misses, writes and
//! deletions. Values are stored as the bytes of their JSON form.

use vstd::prelude::*;
use crate::keys::{first_pos, lemma_first_pos, lemma_first_pos_at, distinct};
use crate::metrics::bump;
use crate::mdp::consumer::CandlestickData;
use crate::text::join3;

verus! {

/// Settings of the cache.
#[derive(Debug)]
pub struct CacheConfig {
    pub redis_url: String,
    pub candlestick_ttl_seconds: u64,
    pub statistics_ttl_seconds: u64,
    pub update_interval_ms: u64,
    pub max_cache_size: usize,
}

impl Default for CacheConfig {
    /// A local Redis, candles kept 5 minutes and statistics 1 minute, cleanup every
    /// second, at most 10 000 entries in memory.
    fn default() -> (r: Self)
        ensures
            r.redis_url@ == "redis://localhost:6379"@,
            r.candlestick_ttl_seconds == 300,
            r.statistics_ttl_seconds == 60,
            r.update_interval_ms == 1000,
            r.max_cache_size == 10000,
    {
        CacheConfig {
            redis_url: String::from_str("redis://localhost:6379"),
            candlestick_ttl_seconds: 300,
            statistics_ttl_seconds: 60,
            update_interval_ms: 1000,
            max_cache_size: 10000,
        }
    }
}

/// What a cache entry holds.
#[derive(Debug)]
pub enum CacheKey {
    Candlestick(String, String),
    Statistics(String),
    AllStatistics,
    AllCandlesticks(String),
}

/// The text of a key.
pub open spec fn key_text(k: CacheKey) -> Seq<char> {
    match k {
        CacheKey::Candlestick(s, t) => "candlestick:"@ + s@ + ":"@ + t@,
        CacheKey::Statistics(s) => "statistics:"@ + s@,
        CacheKey::AllStatistics => "statistics:all"@,
        CacheKey::AllCandlesticks(s) => "candlesticks:"@ + s@,
    }
}

impl CacheKey {
    /// The text of the key: "candlestick:<symbol>:<timeframe>", "statistics:<symbol>",
    /// "statistics:all" or "candlesticks:<symbol>".
    pub fn to_string(&self) -> (r: String)
        ensures
            r@ == key_text(*self),
    {
        match self {
            CacheKey::Candlestick(symbol, timeframe) => {
                let head = join3("candlestick:", symbol.as_str(), ":");
                let r = join3(head.as_str(), timeframe.as_str(), "");
                proof {
                    reveal_strlit("");
                    assert(r@ =~= key_text(*self));
                }
                r
            },
            CacheKey::Statistics(symbol) => {
                let r = join3("statistics:", symbol.as_str(), "");
                proof {
                    reveal_strlit("");
                    assert(r@ =~= key_text(*self));
                }
                r
            },
            CacheKey::AllStatistics => String::from_str("statistics:all"),
            CacheKey::AllCandlesticks(symbol) => {
                let r = join3("candlesticks:", symbol.as_str(), "");
                proof {
                    reveal_strlit("");
                    assert(r@ =~= key_text(*self));
                }
                r
            },
        }
    }
}

/// A candle as it is cached: the candle, when it was cached and for how long.
#[derive(Debug)]
pub struct CachedCandlestickData {
    pub data: CandlestickData,
    pub cached_at: u64,
    pub ttl: u64,
}

/// Counts of the cache.
#[derive(Debug, Clone, Copy)]
pub struct CacheStats {
    pub hits: u64,
    pub misses: u64,
    pub sets: u64,
    pub deletes: u64,
    pub memory_cache_size: usize,
    pub redis_cache_size: usize,
}

/// The keys of stored entries.
pub open spec fn store_keys(s: Seq<(String, Vec<u8>, u64)>) -> Seq<Seq<char>> {
    s.map_values(|e: (String, Vec<u8>, u64)| e.0@)
}

/// The stored entries that have not expired at `now`, in order.
pub open spec fn live_entries(s: Seq<(String, Vec<u8>, u64)>, now: u64) -> Seq<(String, Vec<u8>, u64)>
    decreases s.len(),
{
    if s.len() == 0 {
        Seq::empty()
    } else if now < s.last().2 {
        live_entries(s.drop_last(), now).push(s.last())
    } else {
        live_entries(s.drop_last(), now)
    }
}

/// The stored entries (as views) that have not expired at `now`, in order.
pub open spec fn live_view(s: Seq<(Seq<char>, Seq<u8>, u64)>, now: u64) -> Seq<(Seq<char>, Seq<u8>, u64)>
    decreases s.len(),
{
    if s.len() == 0 {
        Seq::empty()
    } else if now < s.last().2 {
        live_view(s.drop_last(), now).push(s.last())
    } else {
        live_view(s.drop_last(), now)
    }
}

pub proof fn lemma_live_view(s: Seq<(String, Vec<u8>, u64)>, now: u64)
    ensures
        store_view(live_entries(s, now)) == live_view(store_view(s), now),
    decreases s.len(),
{
    if s.len() > 0 {
        lemma_live_view(s.drop_last(), now);
        assert(store_view(s).drop_last() =~= store_view(s.drop_last()));
        if now < s.last().2 {
            assert(store_view(live_entries(s.drop_last(), now).push(s.last())) =~= store_view(
                live_entries(s.drop_last(), now),
            ).push((s.last().0@, s.last().1@, s.last().2)));
        }
    }
}

pub proof fn lemma_live_keys(s: Seq<(String, Vec<u8>, u64)>, now: u64)
    requires
        distinct(store_keys(s)),
    ensures
        distinct(store_keys(live_entries(s, now))),
        forall|i: int| 0 <= i < live_entries(s, now).len() ==> now < #[trigger] live_entries(s, now)[i].2,
        forall|i: int|
            0 <= i < live_entries(s, now).len() ==> store_keys(s).contains(#[trigger] store_keys(live_entries(s, now))[i]),
    decreases s.len(),
{
    if s.len() > 0 {
        let d = s.drop_last();
        assert(store_keys(d) =~= store_keys(s).drop_last());
        lemma_live_keys(d, now);
        let l = live_entries(d, now);
        let ks = store_keys(s);
        assert forall|i: int| 0 <= i < l.len() implies ks.contains(#[trigger] store_keys(l)[i]) by {
            assert(store_keys(d).contains(store_keys(l)[i]));
            let j = choose|j: int| 0 <= j < store_keys(d).len() && store_keys(d)[j] == store_keys(l)[i];
            assert(ks[j] == store_keys(l)[i]);
        }
        if now < s.last().2 {
            let l2 = l.push(s.last());
            let k2 = store_keys(l2);
            assert(k2.drop_last() =~= store_keys(l));
            assert(ks[ks.len() - 1] == s.last().0@);
            assert forall|i: int, j: int| 0 <= i < j < k2.len() implies k2[i] != k2[j] by {
                if j == k2.len() - 1 {
                    assert(k2[i] == store_keys(l)[i]);
                    assert(store_keys(d).contains(k2[i]));
                    let m = choose|m: int| 0 <= m < store_keys(d).len() && store_keys(d)[m] == k2[i];
                    assert(ks[m] == k2[i]);
                } else {
                    assert(k2[i] == store_keys(l)[i]);
                    assert(k2[j] == store_keys(l)[j]);
                }
            }
            assert forall|i: int| 0 <= i < k2.len() implies ks.contains(#[trigger] k2[i]) by {
                if i == k2.len() - 1 {
                    assert(ks[ks.len() - 1] == k2[i]);
                } else {
                    assert(k2[i] == store_keys(l)[i]);
                }
            }
        }
    }
}

/// The store that stands for Redis: values with an expiry time in seconds.
struct MockRedisClient {
    data: Vec<(String, Vec<u8>, u64)>,
}

impl MockRedisClient {
    closed spec fn entries(&self) -> Seq<(String, Vec<u8>, u64)> {
        self.data@
    }

    fn find(&self, key: &String) -> (r: usize)
        ensures
            r == first_pos(store_keys(self.entries()), key@),
            r <= self.entries().len(),
    {
        let ghost ks = store_keys(self.data@);
        proof {
            lemma_first_pos(ks, key@);
        }
        let n = self.data.len();
        let mut k: usize = 0;
        while k < n
            invariant
                n == self.data@.len(),
                ks == store_keys(self.data@),
                k <= n,
                forall|j: int| 0 <= j < k ==> ks[j] != key@,
            decreases n - k,
        {
            if self.data[k].0 == *key {
                proof {
                    lemma_first_pos_at(ks, key@, k as int);
                }
                return k;
            }
            k = k + 1;
        }
        proof {
            lemma_first_pos_at(ks, key@, n as int);
        }
        n
    }
}

fn clone_bytes(v: &Vec<u8>) -> (r: Vec<u8>)
    ensures
        r@ == v@,
{
    let mut out: Vec<u8> = Vec::new();
    let n = v.len();
    let mut i: usize = 0;
    while i < n
        invariant
            n == v@.len(),
            i <= n,
            out@ == v@.take(i as int),
        decreases n - i,
    {
        out.push(v[i]);
        proof {
            assert(v@.take(i + 1) =~= v@.take(i as int).push(v@[i as int]));
        }
        i = i + 1;
    }
    proof {
        assert(v@.take(n as int) =~= v@);
    }
    out
}

/// `(key, value)` stored under its key, replacing what was there.
pub open spec fn memory_put(m: Seq<(Seq<char>, Seq<u8>)>, key: Seq<char>, value: Seq<u8>) -> Seq<(Seq<char>, Seq<u8>)> {
    let k = first_pos(m.map_values(|e: (Seq<char>, Seq<u8>)| e.0), key);
    if k < m.len() { m.update(k as int, (key, value)) } else { m.push((key, value)) }
}

/// The memory entries as keys and bytes.
pub open spec fn memory_view(m: Seq<(String, Vec<u8>)>) -> Seq<(Seq<char>, Seq<u8>)> {
    m.map_values(|e: (String, Vec<u8>)| (e.0@, e.1@))
}

/// The stored entries as keys, bytes and expiry times.
pub open spec fn store_view(s: Seq<(String, Vec<u8>, u64)>) -> Seq<(Seq<char>, Seq<u8>, u64)> {
    s.map_values(|e: (String, Vec<u8>, u64)| (e.0@, e.1@, e.2))
}

/// `(key, value, expiry)` stored under its key, replacing what was there.
pub open spec fn store_put(s: Seq<(Seq<char>, Seq<u8>, u64)>, key: Seq<char>, value: Seq<u8>, expiry: u64) -> Seq<
    (Seq<char>, Seq<u8>, u64),
> {
    let k = first_pos(s.map_values(|e: (Seq<char>, Seq<u8>, u64)| e.0), key);
    if k < s.len() { s.update(k as int, (key, value, expiry)) } else { s.push((key, value, expiry)) }
}

/// What a read finds: the memory entry, else the stored entry that has not expired
/// (which the memory then takes), else nothing.
pub open spec fn read_result(m: Seq<(Seq<char>, Seq<u8>)>, s: Seq<(Seq<char>, Seq<u8>, u64)>, key: Seq<char>, now: u64) -> Option<
    Seq<u8>,
> {
    let mk = first_pos(m.map_values(|e: (Seq<char>, Seq<u8>)| e.0), key);
    let sk = first_pos(s.map_values(|e: (Seq<char>, Seq<u8>, u64)| e.0), key);
    if mk < m.len() {
        Some(m[mk as int].1)
    } else if sk < s.len() && now < s[sk as int].2 {
        Some(s[sk as int].1)
    } else {
        None
    }
}

/// A read of `kt` at `now` that answered `r`, from memory `m0`, store `s0` and counts
/// `c0` to `m1`, `s1` and `c1`: the answer is what `read_result` finds; a find counts a
/// hit, none a miss; a find in the store alone is copied into memory; an expired stored
/// entry that was looked at is dropped.
pub open spec fn read_effect(
    m0: Seq<(Seq<char>, Seq<u8>)>,
    s0: Seq<(Seq<char>, Seq<u8>, u64)>,
    c0: CacheStats,
    kt: Seq<char>,
    now: u64,
    r: Option<Vec<u8>>,
    m1: Seq<(Seq<char>, Seq<u8>)>,
    s1: Seq<(Seq<char>, Seq<u8>, u64)>,
    c1: CacheStats,
) -> bool {
    let found = read_result(m0, s0, kt, now);
    let mk = first_pos(m0.map_values(|e: (Seq<char>, Seq<u8>)| e.0), kt);
    let sk = first_pos(s0.map_values(|e: (Seq<char>, Seq<u8>, u64)| e.0), kt);
    &&& match r {
        Some(b) => found == Some(b@),
        None => found is None,
    }
    &&& c1 == if found is Some {
        CacheStats { hits: bump(c0.hits), ..c0 }
    } else {
        CacheStats { misses: bump(c0.misses), ..c0 }
    }
    &&& m1 == if mk >= m0.len() && found is Some { memory_put(m0, kt, found.unwrap()) } else { m0 }
    &&& s1 == if mk >= m0.len() && sk < s0.len() && now >= s0[sk as int].2 { s0.remove(sk as int) } else { s0 }
}

/// The cache of candles and statistics.
pub struct MDPCacheManager {
    redis_client: MockRedisClient,
    config: CacheConfig,
    memory_cache: Vec<(String, Vec<u8>)>,
    cache_stats: CacheStats,
}

impl MDPCacheManager {
    /// The memory entries.
    pub closed spec fn memory(&self) -> Seq<(Seq<char>, Seq<u8>)> {
        memory_view(self.memory_cache@)
    }

    /// The stored entries with their expiry.
    pub closed spec fn stored(&self) -> Seq<(Seq<char>, Seq<u8>, u64)> {
        store_view(self.redis_client.data@)
    }

    /// The counts.
    pub closed spec fn counts(&self) -> CacheStats {
        self.cache_stats
    }

    /// The settings.
    pub closed spec fn settings(&self) -> &CacheConfig {
        &self.config
    }

    /// Keys are all different in memory and in the store.
    pub open spec fn wf(&self) -> bool {
        &&& distinct(self.memory().map_values(|e: (Seq<char>, Seq<u8>)| e.0))
        &&& distinct(self.stored().map_values(|e: (Seq<char>, Seq<u8>, u64)| e.0))
    }

    /// An empty cache with zero counts.
    pub fn new(config: CacheConfig) -> (r: Self)
        ensures
            r.wf(),
            r.memory().len() == 0,
            r.stored().len() == 0,
            r.counts() == (CacheStats {
                hits: 0,
                misses: 0,
                sets: 0,
                deletes: 0,
                memory_cache_size: 0,
                redis_cache_size: 0,
            }),
            *r.settings() == config,
    {
        MDPCacheManager {
            redis_client: MockRedisClient { data: Vec::new() },
            config,
            memory_cache: Vec::new(),
            cache_stats: CacheStats {
                hits: 0,
                misses: 0,
                sets: 0,
                deletes: 0,
                memory_cache_size: 0,
                redis_cache_size: 0,
            },
        }
    }

    fn find_memory(&self, key: &String) -> (r: usize)
        ensures
            r == first_pos(self.memory().map_values(|e: (Seq<char>, Seq<u8>)| e.0), key@),
            r <= self.memory().len(),
    {
        let ghost ks = self.memory().map_values(|e: (Seq<char>, Seq<u8>)| e.0);
        proof {
            lemma_first_pos(ks, key@);
        }
        let n = self.memory_cache.len();
        let mut k: usize = 0;
        while k < n
            invariant
                n == self.memory_cache@.len(),
                ks == self.memory().map_values(|e: (Seq<char>, Seq<u8>)| e.0),
                k <= n,
                forall|j: int| 0 <= j < k ==> ks[j] != key@,
            decreases n - k,
        {
            if self.memory_cache[k].0 == *key {
                proof {
                    lemma_first_pos_at(ks, key@, k as int);
                }
                return k;
            }
            k = k + 1;
        }
        proof {
            lemma_first_pos_at(ks, key@, n as int);
        }
        n
    }

    fn memory_insert(&mut self, key: String, value: Vec<u8>)
        requires
            old(self).wf(),
        ensures
            final(self).wf(),
            final(self).memory() == memory_put(old(self).memory(), key@, value@),
            final(self).stored() == old(self).stored(),
            final(self).counts() == old(self).counts(),
            *final(self).settings() == *old(self).settings(),
    {
        let k = self.find_memory(&key);
        let ghost before = self.memory();
        let ghost kv = key@;
        let ghost vv = value@;
        proof {
            lemma_first_pos(before.map_values(|e: (Seq<char>, Seq<u8>)| e.0), kv);
        }
        if k < self.memory_cache.len() {
            self.memory_cache.set(k, (key, value));
            proof {
                assert(self.memory() =~= before.update(k as int, (kv, vv)));
                assert(self.memory().map_values(|e: (Seq<char>, Seq<u8>)| e.0) =~= before.map_values(
                    |e: (Seq<char>, Seq<u8>)| e.0,
                ));
            }
        } else {
            self.memory_cache.push((key, value));
            proof {
                assert(self.memory() =~= before.push((kv, vv)));
                let ks = self.memory().map_values(|e: (Seq<char>, Seq<u8>)| e.0);
                let ks0 = before.map_values(|e: (Seq<char>, Seq<u8>)| e.0);
                assert(ks.drop_last() =~= ks0);
                assert(ks[ks.len() - 1] == kv);
                assert forall|i: int, j: int| 0 <= i < j < ks.len() implies ks[i] != ks[j] by {
                    assert(ks[i] == ks0[i]);
                    if j < ks.len() - 1 {
                        assert(ks[j] == ks0[j]);
                    }
                }
            }
        }
    }

    fn store_insert(&mut self, key: String, value: Vec<u8>, expiry: u64)
        requires
            old(self).wf(),
        ensures
            final(self).wf(),
            final(self).stored() == store_put(old(self).stored(), key@, value@, expiry),
            final(self).memory() == old(self).memory(),
            final(self).counts() == old(self).counts(),
            *final(self).settings() == *old(self).settings(),
    {
        let k = self.redis_client.find(&key);
        let ghost before = self.stored();
        let ghost kv = key@;
        let ghost vv = value@;
        proof {
            assert(store_keys(self.redis_client.data@) =~= before.map_values(|e: (Seq<char>, Seq<u8>, u64)| e.0));
            lemma_first_pos(before.map_values(|e: (Seq<char>, Seq<u8>, u64)| e.0), kv);
        }
        if k < self.redis_client.data.len() {
            self.redis_client.data.set(k, (key, value, expiry));
            proof {
                assert(self.stored() =~= before.update(k as int, (kv, vv, expiry)));
                assert(self.stored().map_values(|e: (Seq<char>, Seq<u8>, u64)| e.0) =~= before.map_values(
                    |e: (Seq<char>, Seq<u8>, u64)| e.0,
                ));
            }
        } else {
            self.redis_client.data.push((key, value, expiry));
            proof {
                assert(self.stored() =~= before.push((kv, vv, expiry)));
                let ks = self.stored().map_values(|e: (Seq<char>, Seq<u8>, u64)| e.0);
                let ks0 = before.map_values(|e: (Seq<char>, Seq<u8>, u64)| e.0);
                assert(ks.drop_last() =~= ks0);
                assert(ks[ks.len() - 1] == kv);
                assert forall|i: int, j: int| 0 <= i < j < ks.len() implies ks[i] != ks[j] by {
                    assert(ks[i] == ks0[i]);
                    if j < ks.len() - 1 {
                        assert(ks[j] == ks0[j]);
                    }
                }
            }
        }
    }

    /// Stores the bytes of a value under `key` for `ttl` seconds from `now`, in the
    /// store and in memory, and counts a write.
    pub fn cache_bytes(&mut self, key: &CacheKey, bytes: Vec<u8>, ttl: u64, now: u64)
        requires
            old(self).wf(),
            now + ttl <= u64::MAX,
        ensures
            final(self).wf(),
            final(self).stored() == store_put(old(self).stored(), key_text(*key), bytes@, (now + ttl) as u64),
            final(self).memory() == memory_put(old(self).memory(), key_text(*key), bytes@),
            final(self).counts() == (CacheStats { sets: bump(old(self).counts().sets), ..old(self).counts() }),
            *final(self).settings() == *old(self).settings(),
    {
        let k = key.to_string();
        let copy = clone_bytes(&bytes);
        self.store_insert(k.clone(), copy, now + ttl);
        self.memory_insert(k, bytes);
        self.cache_stats.sets = self.cache_stats.sets.wrapping_add(1);
    }

    /// Caches the bytes of a candle of `symbol` and `timeframe` for the candle time to
    /// live.
    pub fn cache_candlestick(&mut self, symbol: &str, timeframe: &str, bytes: Vec<u8>, now: u64)
        requires
            old(self).wf(),
            now + old(self).settings().candlestick_ttl_seconds <= u64::MAX,
        ensures
            final(self).wf(),
            ({
                let key = "candlestick:"@ + symbol@ + ":"@ + timeframe@;
                &&& final(self).stored() == store_put(
                    old(self).stored(),
                    key,
                    bytes@,
                    (now + old(self).settings().candlestick_ttl_seconds) as u64,
                )
                &&& final(self).memory() == memory_put(old(self).memory(), key, bytes@)
            }),
            final(self).counts() == (CacheStats { sets: bump(old(self).counts().sets), ..old(self).counts() }),
            *final(self).settings() == *old(self).settings(),
    {
        let key = CacheKey::Candlestick(String::from_str(symbol), String::from_str(timeframe));
        let ttl = self.config.candlestick_ttl_seconds;
        self.cache_bytes(&key, bytes, ttl, now);
    }

    /// Caches the bytes of the statistics of `symbol` for the statistics time to live.
    pub fn cache_statistics(&mut self, symbol: &str, bytes: Vec<u8>, now: u64)
        requires
            old(self).wf(),
            now + old(self).settings().statistics_ttl_seconds <= u64::MAX,
        ensures
            final(self).wf(),
            ({
                let key = "statistics:"@ + symbol@;
                &&& final(self).stored() == store_put(
                    old(self).stored(),
                    key,
                    bytes@,
                    (now + old(self).settings().statistics_ttl_seconds) as u64,
                )
                &&& final(self).memory() == memory_put(old(self).memory(), key, bytes@)
            }),
            final(self).counts() == (CacheStats { sets: bump(old(self).counts().sets), ..old(self).counts() }),
            *final(self).settings() == *old(self).settings(),
    {
        let key = CacheKey::Statistics(String::from_str(symbol));
        let ttl = self.config.statistics_ttl_seconds;
        self.cache_bytes(&key, bytes, ttl, now);
    }

    /// Caches the bytes of all statistics for the statistics time to live.
    pub fn cache_all_statistics(&mut self, bytes: Vec<u8>, now: u64)
        requires
            old(self).wf(),
            now + old(self).settings().statistics_ttl_seconds <= u64::MAX,
        ensures
            final(self).wf(),
            final(self).stored() == store_put(
                old(self).stored(),
                "statistics:all"@,
                bytes@,
                (now + old(self).settings().statistics_ttl_seconds) as u64,
            ),
            final(self).memory() == memory_put(old(self).memory(), "statistics:all"@, bytes@),
            final(self).counts() == (CacheStats { sets: bump(old(self).counts().sets), ..old(self).counts() }),
            *final(self).settings() == *old(self).settings(),
    {
        let ttl = self.config.statistics_ttl_seconds;
        self.cache_bytes(&CacheKey::AllStatistics, bytes, ttl, now);
    }

    /// Reads the bytes under `key` at `now`: from memory, else from the store if they
    /// have not expired (memory then takes them); an expired stored entry is dropped.
    /// A find counts a hit, none a miss.
    pub fn get_bytes(&mut self, key: &CacheKey, now: u64) -> (r: Option<Vec<u8>>)
        requires
            old(self).wf(),
        ensures
            final(self).wf(),
            read_effect(old(self).memory(), old(self).stored(), old(self).counts(), key_text(*key), now, r,
                final(self).memory(), final(self).stored(), final(self).counts()),
            *final(self).settings() == *old(self).settings(),
    {
        let k = key.to_string();
        let ghost mk = self.memory().map_values(|e: (Seq<char>, Seq<u8>)| e.0);
        proof {
            lemma_first_pos(mk, k@);
        }
        let m = self.find_memory(&k);
        if m < self.memory_cache.len() {
            let b = clone_bytes(&self.memory_cache[m].1);
            self.cache_stats.hits = self.cache_stats.hits.wrapping_add(1);
            return Some(b);
        }
        let s = self.redis_client.find(&k);
        let ghost sv = self.stored();
        proof {
            assert(store_keys(self.redis_client.data@) =~= sv.map_values(|e: (Seq<char>, Seq<u8>, u64)| e.0));
            lemma_first_pos(sv.map_values(|e: (Seq<char>, Seq<u8>, u64)| e.0), k@);
        }
        if s < self.redis_client.data.len() {
            if now < self.redis_client.data[s].2 {
                let b = clone_bytes(&self.redis_client.data[s].1);
                let copy = clone_bytes(&b);
                self.memory_insert(k, copy);
                self.cache_stats.hits = self.cache_stats.hits.wrapping_add(1);
                return Some(b);
            } else {
                self.redis_client.data.remove(s);
                proof {
                    assert(self.stored() =~= sv.remove(s as int));
                    let ks0 = sv.map_values(|e: (Seq<char>, Seq<u8>, u64)| e.0);
                    let ks = self.stored().map_values(|e: (Seq<char>, Seq<u8>, u64)| e.0);
                    assert forall|i: int, j: int| 0 <= i < j < ks.len() implies ks[i] != ks[j] by {
                        let i0 = if i < s { i } else { i + 1 };
                        let j0 = if j < s { j } else { j + 1 };
                        assert(ks[i] == ks0[i0] && ks[j] == ks0[j0]);
                    }
                }
            }
        }
        self.cache_stats.misses = self.cache_stats.misses.wrapping_add(1);
        None
    }

    /// Reads the bytes of the candle of `symbol` and `timeframe` at `now` (see
    /// `get_bytes`).
    pub fn get_candlestick(&mut self, symbol: &str, timeframe: &str, now: u64) -> (r: Option<Vec<u8>>)
        requires
            old(self).wf(),
        ensures
            final(self).wf(),
            read_effect(old(self).memory(), old(self).stored(), old(self).counts(),
                "candlestick:"@ + symbol@ + ":"@ + timeframe@, now, r, final(self).memory(), final(self).stored(),
                final(self).counts()),
            *final(self).settings() == *old(self).settings(),
    {
        self.get_bytes(&CacheKey::Candlestick(String::from_str(symbol), String::from_str(timeframe)), now)
    }

    /// Reads the bytes of the statistics of `symbol` at `now` (see `get_bytes`).
    pub fn get_statistics(&mut self, symbol: &str, now: u64) -> (r: Option<Vec<u8>>)
        requires
            old(self).wf(),
        ensures
            final(self).wf(),
            read_effect(old(self).memory(), old(self).stored(), old(self).counts(), "statistics:"@ + symbol@, now, r,
                final(self).memory(), final(self).stored(), final(self).counts()),
            *final(self).settings() == *old(self).settings(),
    {
        self.get_bytes(&CacheKey::Statistics(String::from_str(symbol)), now)
    }

    /// Reads the bytes of all statistics at `now` (see `get_bytes`).
    pub fn get_all_statistics(&mut self, now: u64) -> (r: Option<Vec<u8>>)
        requires
            old(self).wf(),
        ensures
            final(self).wf(),
            read_effect(old(self).memory(), old(self).stored(), old(self).counts(), "statistics:all"@, now, r,
                final(self).memory(), final(self).stored(), final(self).counts()),
            *final(self).settings() == *old(self).settings(),
    {
        self.get_bytes(&CacheKey::AllStatistics, now)
    }

    /// Drops the entry under `key` from the store and from memory and counts a deletion.
    pub fn invalidate(&mut self, key: &CacheKey) -> (r: Result<(), String>)
        requires
            old(self).wf(),
        ensures
            final(self).wf(),
            r is Ok,
            ({
                let kt = key_text(*key);
                let mk = first_pos(old(self).memory().map_values(|e: (Seq<char>, Seq<u8>)| e.0), kt);
                let sk = first_pos(old(self).stored().map_values(|e: (Seq<char>, Seq<u8>, u64)| e.0), kt);
                &&& final(self).memory() == if mk < old(self).memory().len() {
                    old(self).memory().remove(mk as int)
                } else {
                    old(self).memory()
                }
                &&& final(self).stored() == if sk < old(self).stored().len() {
                    old(self).stored().remove(sk as int)
                } else {
                    old(self).stored()
                }
            }),
            final(self).counts() == (CacheStats { deletes: bump(old(self).counts().deletes), ..old(self).counts() }),
            *final(self).settings() == *old(self).settings(),
    {
        let k = key.to_string();
        let ghost sv = self.stored();
        let s = self.redis_client.find(&k);
        proof {
            assert(store_keys(self.redis_client.data@) =~= sv.map_values(|e: (Seq<char>, Seq<u8>, u64)| e.0));
        }
        if s < self.redis_client.data.len() {
            self.redis_client.data.remove(s);
            proof {
                assert(self.stored() =~= sv.remove(s as int));
                let ks0 = sv.map_values(|e: (Seq<char>, Seq<u8>, u64)| e.0);
                let ks = self.stored().map_values(|e: (Seq<char>, Seq<u8>, u64)| e.0);
                assert forall|i: int, j: int| 0 <= i < j < ks.len() implies ks[i] != ks[j] by {
                    let i0 = if i < s { i } else { i + 1 };
                    let j0 = if j < s { j } else { j + 1 };
                    assert(ks[i] == ks0[i0] && ks[j] == ks0[j0]);
                }
            }
        }
        let ghost mv = self.memory();
        let m = self.find_memory(&k);
        if m < self.memory_cache.len() {
            self.memory_cache.remove(m);
            proof {
                assert(self.memory() =~= mv.remove(m as int));
                let ks0 = mv.map_values(|e: (Seq<char>, Seq<u8>)| e.0);
                let ks = self.memory().map_values(|e: (Seq<char>, Seq<u8>)| e.0);
                assert forall|i: int, j: int| 0 <= i < j < ks.len() implies ks[i] != ks[j] by {
                    let i0 = if i < m { i } else { i + 1 };
                    let j0 = if j < m { j } else { j + 1 };
                    assert(ks[i] == ks0[i0] && ks[j] == ks0[j0]);
                }
            }
        }
        self.cache_stats.deletes = self.cache_stats.deletes.wrapping_add(1);
        Ok(())
    }

    /// The counts, with the number of entries in memory.
    pub fn get_cache_stats(&self) -> (r: CacheStats)
        ensures
            r == (CacheStats { memory_cache_size: self.memory().len() as usize, ..self.counts() }),
    {
        CacheStats { memory_cache_size: self.memory_cache.len(), ..self.cache_stats }
    }

    /// Drops the stored entries that have expired at `now`.
    pub fn cleanup_expired_cache(&mut self, now: u64) -> (r: Result<(), String>)
        requires
            old(self).wf(),
        ensures
            final(self).wf(),
            r is Ok,
            final(self).stored() == live_view(old(self).stored(), now),
            final(self).memory() == old(self).memory(),
            final(self).counts() == old(self).counts(),
            *final(self).settings() == *old(self).settings(),
    {
        let mut src: Vec<(String, Vec<u8>, u64)> = Vec::new();
        std::mem::swap(&mut src, &mut self.redis_client.data);
        let ghost q = src@;
        let n = src.len();
        let mut rev: Vec<(String, Vec<u8>, u64)> = Vec::new();
        while src.len() > 0
            invariant
                src@.len() + rev@.len() == n,
                n == q.len(),
                src@ == q.take(src@.len() as int),
                forall|j: int| 0 <= j < rev@.len() ==> rev@[j] == q[n - 1 - j],
            decreases src@.len(),
        {
            let e = src.pop().unwrap();
            rev.push(e);
            proof {
                assert(src@ =~= q.take(src@.len() as int));
            }
        }
        let mut kept: Vec<(String, Vec<u8>, u64)> = Vec::new();
        let mut i: usize = 0;
        while i < n
            invariant
                n == q.len(),
                i <= n,
                rev@.len() == n - i,
                forall|j: int| 0 <= j < n - i ==> rev@[j] == q[n - 1 - j],
                kept@ == live_entries(q.take(i as int), now),
            decreases n - i,
        {
            let e = rev.pop().unwrap();
            proof {
                let t = q.take(i + 1);
                assert(t.drop_last() =~= q.take(i as int));
                assert(t.last() == e);
            }
            if now < e.2 {
                kept.push(e);
            }
            i = i + 1;
        }
        proof {
            assert(q.take(n as int) =~= q);
            assert(store_keys(q) =~= store_view(q).map_values(|e: (Seq<char>, Seq<u8>, u64)| e.0));
            lemma_live_keys(q, now);
            lemma_live_view(q, now);
            assert(store_keys(kept@) =~= store_view(kept@).map_values(|e: (Seq<char>, Seq<u8>, u64)| e.0));
        }
        self.redis_client.data = kept;
        Ok(())
    }

    /// Keeps at most `max_size` entries in memory, dropping the oldest ones first.
    pub fn limit_cache_size(&mut self, max_size: usize) -> (r: Result<(), String>)
        requires
            old(self).wf(),
        ensures
            final(self).wf(),
            r is Ok,
            final(self).memory() == if old(self).memory().len() > max_size {
                old(self).memory().skip(old(self).memory().len() - max_size)
            } else {
                old(self).memory()
            },
            final(self).stored() == old(self).stored(),
            final(self).counts() == old(self).counts(),
            *final(self).settings() == *old(self).settings(),
    {
        if self.memory_cache.len() <= max_size {
            return Ok(());
        }
        let excess = self.memory_cache.len() - max_size;
        let ghost mv = self.memory();
        let mut src: Vec<(String, Vec<u8>)> = Vec::new();
        std::mem::swap(&mut src, &mut self.memory_cache);
        let ghost q = src@;
        let n = src.len();
        let mut rev: Vec<(String, Vec<u8>)> = Vec::new();
        while src.len() > 0
            invariant
                src@.len() + rev@.len() == n,
                n == q.len(),
                src@ == q.take(src@.len() as int),
                forall|j: int| 0 <= j < rev@.len() ==> rev@[j] == q[n - 1 - j],
            decreases src@.len(),
        {
            let e = src.pop().unwrap();
            rev.push(e);
            proof {
                assert(src@ =~= q.take(src@.len() as int));
            }
        }
        let mut kept: Vec<(String, Vec<u8>)> = Vec::new();
        let mut i: usize = 0;
        while i < n
            invariant
                n == q.len(),
                excess <= n,
                i <= n,
                rev@.len() == n - i,
                forall|j: int| 0 <= j < n - i ==> rev@[j] == q[n - 1 - j],
                kept@ == if i <= excess { Seq::empty() } else { q.subrange(excess as int, i as int) },
            decreases n - i,
        {
            let e = rev.pop().unwrap();
            if i >= excess {
                kept.push(e);
                proof {
                    assert(q.subrange(excess as int, i + 1) =~= (if i <= excess {
                        Seq::<(String, Vec<u8>)>::empty()
                    } else {
                        q.subrange(excess as int, i as int)
                    }).push(q[i as int]));
                }
            }
            i = i + 1;
        }
        self.memory_cache = kept;
        proof {
            assert(q.subrange(excess as int, n as int) =~= q.skip(excess as int));
            assert(self.memory() =~= mv.skip(excess as int));
            let ks0 = mv.map_values(|e: (Seq<char>, Seq<u8>)| e.0);
            let ks = self.memory().map_values(|e: (Seq<char>, Seq<u8>)| e.0);
            assert forall|a: int, b: int| 0 <= a < b < ks.len() implies ks[a] != ks[b] by {
                assert(ks[a] == ks0[a + excess] && ks[b] == ks0[b + excess]);
            }
        }
        Ok(())
    }
}

/// A read of a key right after it was written gives back the bytes written, whatever
/// the time of the read.
pub proof fn law_read_after_write(
    m: Seq<(Seq<char>, Seq<u8>)>,
    s: Seq<(Seq<char>, Seq<u8>, u64)>,
    key: Seq<char>,
    value: Seq<u8>,
    expiry: u64,
    now: u64,
)
    ensures
        read_result(memory_put(m, key, value), store_put(s, key, value, expiry), key, now) == Some(value),
{
    let keys0 = m.map_values(|e: (Seq<char>, Seq<u8>)| e.0);
    lemma_first_pos(keys0, key);
    let k = first_pos(keys0, key);
    let m1 = memory_put(m, key, value);
    let keys1 = m1.map_values(|e: (Seq<char>, Seq<u8>)| e.0);
    if k < m.len() {
        assert forall|j: int| 0 <= j < k implies keys1[j] != key by {
            assert(keys1[j] == keys0[j]);
        }
        lemma_first_pos_at(keys1, key, k as int);
    } else {
        assert forall|j: int| 0 <= j < m.len() implies keys1[j] != key by {
            assert(keys1[j] == keys0[j]);
        }
        lemma_first_pos_at(keys1, key, m.len() as int);
    }
}

proof fn lemma_gone_after_remove<K>(ids: Seq<K>, id: K)
    requires
        distinct(ids),
    ensures
        ({
            let k = first_pos(ids, id);
            let r = if k < ids.len() { ids.remove(k as int) } else { ids };
            first_pos(r, id) == r.len()
        }),
{
    lemma_first_pos(ids, id);
    let k = first_pos(ids, id);
    if k < ids.len() {
        let r = ids.remove(k as int);
        assert forall|j: int| 0 <= j < r.len() implies r[j] != id by {
            if j < k {
                assert(r[j] == ids[j]);
            } else {
                assert(r[j] == ids[j + 1]);
            }
        }
        lemma_first_pos_at(r, id, r.len() as int);
    } else {
        lemma_first_pos_at(ids, id, ids.len() as int);
    }
}

/// After a key was invalidated (its entry taken out of memory and out of the store), a
/// read of it finds nothing, in a cache whose keys are distinct.
pub proof fn law_read_after_invalidate(
    m: Seq<(Seq<char>, Seq<u8>)>,
    s: Seq<(Seq<char>, Seq<u8>, u64)>,
    key: Seq<char>,
    now: u64,
)
    requires
        distinct(m.map_values(|e: (Seq<char>, Seq<u8>)| e.0)),
        distinct(s.map_values(|e: (Seq<char>, Seq<u8>, u64)| e.0)),
    ensures
        ({
            let mk = first_pos(m.map_values(|e: (Seq<char>, Seq<u8>)| e.0), key);
            let sk = first_pos(s.map_values(|e: (Seq<char>, Seq<u8>, u64)| e.0), key);
            let m1 = if mk < m.len() { m.remove(mk as int) } else { m };
            let s1 = if sk < s.len() { s.remove(sk as int) } else { s };
            read_result(m1, s1, key, now) is None
        }),
{
    let mkeys = m.map_values(|e: (Seq<char>, Seq<u8>)| e.0);
    let skeys = s.map_values(|e: (Seq<char>, Seq<u8>, u64)| e.0);
    lemma_gone_after_remove(mkeys, key);
    lemma_gone_after_remove(skeys, key);
    let mk = first_pos(mkeys, key);
    let sk = first_pos(skeys, key);
    lemma_first_pos(mkeys, key);
    lemma_first_pos(skeys, key);
    if mk < m.len() {
        assert(m.remove(mk as int).map_values(|e: (Seq<char>, Seq<u8>)| e.0) =~= mkeys.remove(mk as int));
    }
    if sk < s.len() {
        assert(s.remove(sk as int).map_values(|e: (Seq<char>, Seq<u8>, u64)| e.0) =~= skeys.remove(sk as int));
    }
}

} // verus!

