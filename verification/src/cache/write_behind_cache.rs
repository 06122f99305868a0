//! The write-behind cache: a first level in memory whose entries expire, in front of
//! an optional second level and the backing third level. A read tries the levels in
//! turn and keeps what it finds in the first; a write goes to the first level and
//! marks the key, and marked keys are written through to the slower levels later.
//! The slower levels are reached by the caller; this is the first level and every
//! decision around it.

use vstd::prelude::*;
use crate::keyed::{entry_keys, find_entry, lemma_map_of_at, lemma_map_of_dom, map_of, put_entry, remove_entry};
use crate::keys::distinct;
use crate::metrics::{bump, CacheMetrics};
use crate::outside::{json_from_u64, json_number, json_to_u64, json_u64};
use crate::text::join3;

verus! {

/// A cached document with the time it was written (milliseconds), its version and how
/// long it lives (milliseconds).
#[derive(Debug)]
pub struct CacheEntry {
    pub value: serde_json::Value,
    pub timestamp: u64,
    pub version: u64,
    pub ttl: u64,
}

impl CacheEntry {
    /// A first version of `value`, written at `now`.
    pub fn new(value: serde_json::Value, ttl: u64, now: u64) -> (r: Self)
        ensures
            r == (CacheEntry { value, timestamp: now, version: 0, ttl }),
    {
        CacheEntry { value, timestamp: now, version: 0, ttl }
    }

    /// Whether more than its lifetime has passed since it was written.
    pub fn is_expired(&self, now: u64) -> (r: bool)
        ensures
            r == (now > self.timestamp && now - self.timestamp > self.ttl),
    {
        now > self.timestamp && now - self.timestamp > self.ttl
    }

    /// Replaces the document, written at `now`, as the next version.
    pub fn update(&mut self, value: serde_json::Value, now: u64)
        requires
            old(self).version < u64::MAX,
        ensures
            *final(self) == (CacheEntry { value, timestamp: now, version: (old(self).version + 1) as u64, ttl: old(self).ttl }),
    {
        self.value = value;
        self.timestamp = now;
        self.version = self.version + 1;
    }
}

/// The spec form of `is_expired`.
pub open spec fn expired(e: CacheEntry, now: u64) -> bool {
    now > e.timestamp && now - e.timestamp > e.ttl
}

/// What can go wrong in a cache.
#[derive(Debug)]
pub enum CacheError {
    KeyNotFound(String),
    Expired(String),
    LayerError(String),
    SerializationError(String),
}

impl CacheError {
    /// The error as text: "캐시 키를 찾을 수 없음: ..", "캐시 만료됨: ..",
    /// "캐시 레이어 오류: .." or "직렬화 오류: ..".
    pub fn to_string(&self) -> (r: String)
        ensures
            r@ == match self {
                CacheError::KeyNotFound(m) => "캐시 키를 찾을 수 없음: "@ + m@,
                CacheError::Expired(m) => "캐시 만료됨: "@ + m@,
                CacheError::LayerError(m) => "캐시 레이어 오류: "@ + m@,
                CacheError::SerializationError(m) => "직렬화 오류: "@ + m@,
            },
    {
        let (head, m) = match self {
            CacheError::KeyNotFound(m) => ("캐시 키를 찾을 수 없음: ", m),
            CacheError::Expired(m) => ("캐시 만료됨: ", m),
            CacheError::LayerError(m) => ("캐시 레이어 오류: ", m),
            CacheError::SerializationError(m) => ("직렬화 오류: ", m),
        };
        let mut s = String::from_str(head);
        s.append(m.as_str());
        s
    }
}

/// The sizes of the cache.
#[derive(Debug, Clone, Copy, PartialEq, Eq, Structural)]
pub struct CacheStatus {
    pub l1_size: usize,
    pub dirty_count: usize,
    pub l2_enabled: bool,
}

/// The first level of the write-behind cache and the keys waiting to be written through.
pub struct WriteBehindCache {
    l1_cache: Vec<(String, CacheEntry)>,
    dirty_keys: Vec<(String, ())>,
    l2_enabled: bool,
    sync_interval_ms: u64,
    cache_ttl_ms: u64,
    metrics: CacheMetrics,
}

/// The first level after keeping `value` for `key` as found in a slower level at `now`.
pub open spec fn kept(l1: Map<Seq<char>, CacheEntry>, key: Seq<char>, value: serde_json::Value, ttl: u64, now: u64)
    -> Map<Seq<char>, CacheEntry> {
    l1.insert(key, CacheEntry { value, timestamp: now, version: 0, ttl })
}

/// The first level after writing `value` for `key` at `now`: the next version of an
/// existing entry, or a first version that lives `ttl`.
pub open spec fn written(l1: Map<Seq<char>, CacheEntry>, key: Seq<char>, value: serde_json::Value, ttl: u64, now: u64)
    -> Map<Seq<char>, CacheEntry> {
    if l1.contains_key(key) {
        l1.insert(key, CacheEntry { value, timestamp: now, version: (l1[key].version + 1) as u64, ttl: l1[key].ttl })
    } else {
        l1.insert(key, CacheEntry { value, timestamp: now, version: 0, ttl })
    }
}

impl WriteBehindCache {
    /// The first level, by key.
    pub closed spec fn l1(&self) -> Map<Seq<char>, CacheEntry> {
        map_of(self.l1_cache@)
    }

    /// The keys waiting to be written through.
    pub closed spec fn dirty(&self) -> Set<Seq<char>> {
        map_of(self.dirty_keys@).dom()
    }

    /// Whether there is a second level.
    pub closed spec fn has_l2(&self) -> bool {
        self.l2_enabled
    }

    /// How long a new entry lives.
    pub closed spec fn ttl(&self) -> u64 {
        self.cache_ttl_ms
    }

    /// The pause between write-throughs.
    pub closed spec fn interval(&self) -> u64 {
        self.sync_interval_ms
    }

    /// The counters.
    pub closed spec fn counters(&self) -> CacheMetrics {
        self.metrics
    }

    /// No key twice, in the first level or among the waiting keys.
    pub closed spec fn wf(&self) -> bool {
        &&& distinct(entry_keys(self.l1_cache@))
        &&& distinct(entry_keys(self.dirty_keys@))
    }

    /// An empty cache without a second level.
    pub fn new(sync_interval_ms: u64, cache_ttl_ms: u64) -> (r: Self)
        ensures
            r.wf(),
            r.l1() == Map::<Seq<char>, CacheEntry>::empty(),
            r.dirty() == Set::<Seq<char>>::empty(),
            !r.has_l2(),
            r.ttl() == cache_ttl_ms,
            r.interval() == sync_interval_ms,
    {
        let r = WriteBehindCache {
            l1_cache: Vec::new(),
            dirty_keys: Vec::new(),
            l2_enabled: false,
            sync_interval_ms,
            cache_ttl_ms,
            metrics: CacheMetrics::new(),
        };
        proof {
            assert(map_of(r.l1_cache@) =~= Map::<Seq<char>, CacheEntry>::empty());
            assert(map_of(r.dirty_keys@).dom() =~= Set::<Seq<char>>::empty());
            assert(entry_keys(r.l1_cache@) =~= Seq::<Seq<char>>::empty());
            assert(entry_keys(r.dirty_keys@) =~= Seq::<Seq<char>>::empty());
        }
        r
    }

    /// The same cache with a second level.
    pub fn with_l2_cache(self) -> (r: Self)
        ensures
            r.has_l2(),
            r.wf() == self.wf(),
            r.l1() == self.l1(),
            r.dirty() == self.dirty(),
            r.ttl() == self.ttl(),
            r.interval() == self.interval(),
    {
        let mut s = self;
        s.l2_enabled = true;
        s
    }

    /// The pause between write-throughs in milliseconds.
    pub fn sync_interval_ms(&self) -> (r: u64)
        ensures
            r == self.interval(),
    {
        self.sync_interval_ms
    }

    /// The first step of a read at `now`: the document of `key` when the first level
    /// holds it unexpired (a first-level hit). Otherwise an expired entry is dropped, a
    /// first-level miss is counted, and none is answered: the caller asks the slower
    /// levels.
    pub fn get_l1(&mut self, key: &str, now: u64) -> (r: Option<serde_json::Value>)
        requires
            old(self).wf(),
        ensures
            final(self).wf(),
            ({
                let m = old(self).l1();
                if m.contains_key(key@) && !expired(m[key@], now) {
                    &&& r == Some(m[key@].value)
                    &&& final(self).l1() == m
                    &&& final(self).counters() == (CacheMetrics { l1_hits: bump(old(self).counters().l1_hits), ..old(self).counters() })
                } else {
                    &&& r is None
                    &&& final(self).l1() == m.remove(key@)
                    &&& final(self).counters() == (CacheMetrics { l1_misses: bump(old(self).counters().l1_misses), ..old(self).counters() })
                }
            }),
            final(self).dirty() == old(self).dirty(),
            final(self).has_l2() == old(self).has_l2(),
            final(self).ttl() == old(self).ttl(),
            final(self).interval() == old(self).interval(),
    {
        let i = find_entry(&self.l1_cache, key);
        proof {
            lemma_map_of_dom(self.l1_cache@, key@);
            if i < self.l1_cache@.len() {
                lemma_map_of_at(self.l1_cache@, i as int);
            }
        }
        if i < self.l1_cache.len() {
            if !self.l1_cache[i].1.is_expired(now) {
                self.metrics.record_l1_hit();
                return Some(self.l1_cache[i].1.value.clone());
            }
            remove_entry(&mut self.l1_cache, key);
        } else {
            proof {
                assert(map_of(self.l1_cache@).remove(key@) =~= map_of(self.l1_cache@));
            }
        }
        self.metrics.record_l1_miss();
        None
    }

    /// The second step of a read, when there is a second level: what it found for
    /// `key`. A document found is kept in the first level as a first version at `now`
    /// and answered (a second-level hit); nothing found is a second-level miss.
    pub fn take_l2_result(&mut self, key: &str, found: Option<serde_json::Value>, now: u64)
        -> (r: Option<serde_json::Value>)
        requires
            old(self).wf(),
        ensures
            final(self).wf(),
            r == found,
            match found {
                Some(v) => final(self).l1() == kept(old(self).l1(), key@, v, old(self).ttl(), now)
                    && final(self).counters() == (CacheMetrics { l2_hits: bump(old(self).counters().l2_hits), ..old(self).counters() }),
                None => final(self).l1() == old(self).l1()
                    && final(self).counters() == (CacheMetrics { l2_misses: bump(old(self).counters().l2_misses), ..old(self).counters() }),
            },
            final(self).dirty() == old(self).dirty(),
            final(self).has_l2() == old(self).has_l2(),
            final(self).ttl() == old(self).ttl(),
            final(self).interval() == old(self).interval(),
    {
        match found {
            Some(v) => {
                self.metrics.record_l2_hit();
                let entry = CacheEntry::new(v.clone(), self.cache_ttl_ms, now);
                put_entry(&mut self.l1_cache, key, entry);
                Some(v)
            },
            None => {
                self.metrics.record_l2_miss();
                None
            },
        }
    }

    /// The last step of a read: what the backing level found for `key`. A document
    /// found is kept in the first level as a first version at `now` and answered (a
    /// third-level hit; the caller also writes it to the second level); nothing found is
    /// a third-level miss, and the read answers none.
    pub fn take_l3_result(&mut self, key: &str, found: Option<serde_json::Value>, now: u64)
        -> (r: Option<serde_json::Value>)
        requires
            old(self).wf(),
        ensures
            final(self).wf(),
            r == found,
            match found {
                Some(v) => final(self).l1() == kept(old(self).l1(), key@, v, old(self).ttl(), now)
                    && final(self).counters() == (CacheMetrics { l3_hits: bump(old(self).counters().l3_hits), ..old(self).counters() }),
                None => final(self).l1() == old(self).l1()
                    && final(self).counters() == (CacheMetrics { l3_misses: bump(old(self).counters().l3_misses), ..old(self).counters() }),
            },
            final(self).dirty() == old(self).dirty(),
            final(self).has_l2() == old(self).has_l2(),
            final(self).ttl() == old(self).ttl(),
            final(self).interval() == old(self).interval(),
    {
        match found {
            Some(v) => {
                self.metrics.record_l3_hit();
                let entry = CacheEntry::new(v.clone(), self.cache_ttl_ms, now);
                put_entry(&mut self.l1_cache, key, entry);
                Some(v)
            },
            None => {
                self.metrics.record_l3_miss();
                None
            },
        }
    }

    /// Writes `value` for `key` at `now` into the first level (see `written`) and marks
    /// the key to be written through.
    pub fn set(&mut self, key: &str, value: serde_json::Value, now: u64)
        requires
            old(self).wf(),
            old(self).l1().contains_key(key@) ==> old(self).l1()[key@].version < u64::MAX,
        ensures
            final(self).wf(),
            final(self).l1() == written(old(self).l1(), key@, value, old(self).ttl(), now),
            final(self).dirty() == old(self).dirty().insert(key@),
            final(self).counters() == old(self).counters(),
            final(self).has_l2() == old(self).has_l2(),
            final(self).ttl() == old(self).ttl(),
            final(self).interval() == old(self).interval(),
    {
        let i = find_entry(&self.l1_cache, key);
        proof {
            lemma_map_of_dom(self.l1_cache@, key@);
            if i < self.l1_cache@.len() {
                lemma_map_of_at(self.l1_cache@, i as int);
            }
        }
        let entry = if i < self.l1_cache.len() {
            let old_entry = &self.l1_cache[i].1;
            CacheEntry { value, timestamp: now, version: old_entry.version + 1, ttl: old_entry.ttl }
        } else {
            CacheEntry::new(value, self.cache_ttl_ms, now)
        };
        put_entry(&mut self.l1_cache, key, entry);
        put_entry(&mut self.dirty_keys, key, ());
        proof {
            assert(self.dirty() =~= old(self).dirty().insert(key@));
        }
    }

    /// Drops `key` from the first level (the caller also drops it from the second).
    pub fn invalidate(&mut self, key: &str)
        requires
            old(self).wf(),
        ensures
            final(self).wf(),
            final(self).l1() == old(self).l1().remove(key@),
            final(self).dirty() == old(self).dirty(),
            final(self).counters() == old(self).counters(),
            final(self).has_l2() == old(self).has_l2(),
            final(self).ttl() == old(self).ttl(),
            final(self).interval() == old(self).interval(),
    {
        remove_entry(&mut self.l1_cache, key);
    }

    /// Deletes `key`: it leaves the first level (the caller also drops it from the
    /// second, whose outcome does not matter), and `backing` is the outcome of dropping
    /// it from the backing level. When that failed, its error is returned and the key
    /// still waits to be written through; otherwise it no longer does.
    pub fn delete(&mut self, key: &str, backing: Result<(), CacheError>) -> (r: Result<(), CacheError>)
        requires
            old(self).wf(),
        ensures
            final(self).wf(),
            r == backing,
            final(self).l1() == old(self).l1().remove(key@),
            final(self).dirty() == if backing is Ok { old(self).dirty().remove(key@) } else { old(self).dirty() },
            final(self).counters() == old(self).counters(),
            final(self).has_l2() == old(self).has_l2(),
            final(self).ttl() == old(self).ttl(),
            final(self).interval() == old(self).interval(),
    {
        self.invalidate(key);
        if backing.is_ok() {
            self.forget_dirty(key);
        }
        backing
    }

    /// The end of a deletion, once the backing level dropped `key`: it no longer waits
    /// to be written through.
    pub fn forget_dirty(&mut self, key: &str)
        requires
            old(self).wf(),
        ensures
            final(self).wf(),
            final(self).l1() == old(self).l1(),
            final(self).dirty() == old(self).dirty().remove(key@),
            final(self).counters() == old(self).counters(),
            final(self).has_l2() == old(self).has_l2(),
            final(self).ttl() == old(self).ttl(),
            final(self).interval() == old(self).interval(),
    {
        remove_entry(&mut self.dirty_keys, key);
        proof {
            assert(self.dirty() =~= old(self).dirty().remove(key@));
        }
    }

    /// Drops the entries expired at `now`.
    pub fn cleanup_expired_entries(&mut self, now: u64)
        requires
            old(self).wf(),
        ensures
            final(self).wf(),
            forall|k: Seq<char>| #[trigger] final(self).l1().contains_key(k) <==> old(self).l1().contains_key(k)
                && !expired(old(self).l1()[k], now),
            forall|k: Seq<char>| #[trigger] final(self).l1().contains_key(k) ==> final(self).l1()[k] == old(self).l1()[k],
            final(self).dirty() == old(self).dirty(),
            final(self).counters() == old(self).counters(),
            final(self).has_l2() == old(self).has_l2(),
            final(self).ttl() == old(self).ttl(),
    {
        let ghost m0 = map_of(self.l1_cache@);
        let mut kept_entries: Vec<(String, CacheEntry)> = Vec::new();
        let mut rest: Vec<(String, CacheEntry)> = Vec::new();
        std::mem::swap(&mut rest, &mut self.l1_cache);
        let ghost orig = rest@;
        let total: usize = rest.len();
        let mut i: usize = 0;
        proof {
            assert(map_of(kept_entries@) =~= Map::<Seq<char>, CacheEntry>::empty());
            assert(entry_keys(kept_entries@) =~= Seq::<Seq<char>>::empty());
        }
        while rest.len() > 0
            invariant
                distinct(entry_keys(orig)),
                m0 == map_of(orig),
                i + rest@.len() == orig.len(),
                orig.len() == total,
                rest@ == orig.skip(i as int),
                distinct(entry_keys(kept_entries@)),
                forall|k: Seq<char>| #[trigger] map_of(kept_entries@).contains_key(k) <==> (exists|j: int| 0 <= j < i
                    && orig[j].0@ == k && !expired(orig[j].1, now)),
                forall|k: Seq<char>| #[trigger] map_of(kept_entries@).contains_key(k) ==> map_of(kept_entries@)[k] == m0[k],
            decreases rest.len(),
        {
            let e = rest.remove(0);
            proof {
                assert(e == orig[i as int]);
                assert(rest@ =~= orig.skip(i + 1));
                lemma_map_of_at(orig, i as int);
            }
            if !e.1.is_expired(now) {
                let ghost before = kept_entries@;
                proof {
                    lemma_map_of_dom(before, e.0@);
                    if entry_keys(before).contains(e.0@) {
                        let j = choose|j: int| 0 <= j < entry_keys(before).len() && entry_keys(before)[j] == e.0@;
                        assert(map_of(before).contains_key(e.0@));
                        let w = choose|w: int| 0 <= w < i && orig[w].0@ == e.0@ && !expired(orig[w].1, now);
                        assert(entry_keys(orig)[w] == entry_keys(orig)[i as int]);
                    }
                }
                let k = e.0.clone();
                put_entry(&mut kept_entries, k.as_str(), e.1);
            }
            i = i + 1;
        }
        self.l1_cache = kept_entries;
        proof {
            assert forall|k: Seq<char>| #[trigger] map_of(self.l1_cache@).contains_key(k) <==> m0.contains_key(k)
                && !expired(m0[k], now) by {
                lemma_map_of_dom(orig, k);
                if m0.contains_key(k) {
                    let j = choose|j: int| 0 <= j < entry_keys(orig).len() && entry_keys(orig)[j] == k;
                    lemma_map_of_at(orig, j);
                }
                if exists|j: int| 0 <= j < i && orig[j].0@ == k && !expired(orig[j].1, now) {
                    let j = choose|j: int| 0 <= j < i && orig[j].0@ == k && !expired(orig[j].1, now);
                    lemma_map_of_at(orig, j);
                }
            }
        }
    }

    /// Takes the keys waiting to be written through: each with its document when the
    /// first level still holds it. No key waits afterwards.
    pub fn take_dirty_entries(&mut self) -> (r: Vec<(String, serde_json::Value)>)
        requires
            old(self).wf(),
        ensures
            final(self).wf(),
            final(self).dirty() == Set::<Seq<char>>::empty(),
            forall|i: int| 0 <= i < r.len() ==> old(self).dirty().contains((#[trigger] r@[i]).0@)
                && old(self).l1().contains_key(r@[i].0@) && r@[i].1 == old(self).l1()[r@[i].0@].value,
            forall|k: Seq<char>| old(self).dirty().contains(k) && old(self).l1().contains_key(k)
                ==> exists|i: int| 0 <= i < r.len() && (#[trigger] r@[i]).0@ == k,
            final(self).l1() == old(self).l1(),
            final(self).counters() == old(self).counters(),
            final(self).has_l2() == old(self).has_l2(),
            final(self).ttl() == old(self).ttl(),
    {
        let mut keys: Vec<(String, ())> = Vec::new();
        std::mem::swap(&mut keys, &mut self.dirty_keys);
        let ghost d = keys@;
        let mut out: Vec<(String, serde_json::Value)> = Vec::new();
        let mut i: usize = 0;
        while i < keys.len()
            invariant
                d == keys@,
                distinct(entry_keys(d)),
                distinct(entry_keys(self.l1_cache@)),
                self.l1_cache@ == old(self).l1_cache@,
                map_of(d).dom() == old(self).dirty(),
                i <= keys.len(),
                forall|j: int| 0 <= j < out.len() ==> map_of(d).dom().contains((#[trigger] out@[j]).0@)
                    && map_of(self.l1_cache@).contains_key(out@[j].0@) && out@[j].1 == map_of(self.l1_cache@)[out@[j].0@].value,
                forall|j: int| 0 <= j < i && map_of(self.l1_cache@).contains_key(#[trigger] d[j].0@)
                    ==> exists|x: int| 0 <= x < out.len() && (#[trigger] out@[x]).0@ == d[j].0@,
            decreases keys.len() - i,
        {
            let k = &keys[i].0;
            let p = find_entry(&self.l1_cache, k.as_str());
            proof {
                lemma_map_of_at(d, i as int);
                lemma_map_of_dom(self.l1_cache@, k@);
                if p < self.l1_cache@.len() {
                    lemma_map_of_at(self.l1_cache@, p as int);
                }
            }
            if p < self.l1_cache.len() {
                let ghost before = out@;
                out.push((k.clone(), self.l1_cache[p].1.value.clone()));
                proof {
                    assert(out@[out@.len() - 1].0@ == d[i as int].0@);
                    assert forall|j: int| 0 <= j < i + 1 && map_of(self.l1_cache@).contains_key(#[trigger] d[j].0@)
                        implies exists|x: int| 0 <= x < out.len() && (#[trigger] out@[x]).0@ == d[j].0@ by {
                        if j < i {
                            let x = choose|x: int| 0 <= x < before.len() && (#[trigger] before[x]).0@ == d[j].0@;
                            assert(out@[x] == before[x]);
                        } else {
                            assert(out@[out@.len() - 1].0@ == d[j].0@);
                        }
                    }
                }
            }
            i = i + 1;
        }
        proof {
            assert(map_of(self.dirty_keys@).dom() =~= Set::<Seq<char>>::empty());
            assert(entry_keys(self.dirty_keys@) =~= Seq::<Seq<char>>::empty());
            assert forall|k: Seq<char>| old(self).dirty().contains(k) && old(self).l1().contains_key(k)
                implies exists|x: int| 0 <= x < out.len() && (#[trigger] out@[x]).0@ == k by {
                lemma_map_of_dom(d, k);
                let j = choose|j: int| 0 <= j < entry_keys(d).len() && entry_keys(d)[j] == k;
                assert(d[j].0@ == k);
            }
        }
        out
    }

    /// Counts the outcome of writing one key through to the backing level.
    pub fn record_sync_result(&mut self, ok: bool)
        ensures
            final(self).counters() == if ok {
                CacheMetrics { sync_operations: bump(old(self).counters().sync_operations), ..old(self).counters() }
            } else {
                CacheMetrics { sync_errors: bump(old(self).counters().sync_errors), ..old(self).counters() }
            },
            final(self).wf() == old(self).wf(),
            final(self).l1() == old(self).l1(),
            final(self).dirty() == old(self).dirty(),
            final(self).has_l2() == old(self).has_l2(),
            final(self).ttl() == old(self).ttl(),
    {
        if ok {
            self.metrics.record_sync_success();
        } else {
            self.metrics.record_sync_error();
        }
    }

    /// The counters.
    pub fn get_metrics(&self) -> (r: &CacheMetrics)
        ensures
            *r == self.counters(),
    {
        &self.metrics
    }

    /// The number of first-level entries and of waiting keys, and whether there is a
    /// second level.
    pub fn get_cache_status(&self) -> (r: CacheStatus)
        requires
            self.wf(),
        ensures
            r.l1_size == self.l1().len(),
            r.dirty_count == self.dirty().len(),
            r.l2_enabled == self.has_l2(),
    {
        proof {
            lemma_map_of_len(self.l1_cache@);
            lemma_map_of_len(self.dirty_keys@);
        }
        CacheStatus { l1_size: self.l1_cache.len(), dirty_count: self.dirty_keys.len(), l2_enabled: self.l2_enabled }
    }
}

/// With no key twice, the map has as many keys as there are entries.
proof fn lemma_map_of_len<V>(s: Seq<(String, V)>)
    requires
        distinct(entry_keys(s)),
    ensures
        map_of(s).dom().finite(),
        map_of(s).len() == s.len(),
        map_of(s).dom().len() == s.len(),
    decreases s.len(),
{
    if s.len() > 0 {
        let t = s.drop_last();
        assert(entry_keys(t) =~= entry_keys(s).drop_last());
        lemma_map_of_len(t);
        lemma_map_of_dom(t, s.last().0@);
        if entry_keys(t).contains(s.last().0@) {
            let j = choose|j: int| 0 <= j < entry_keys(t).len() && entry_keys(t)[j] == s.last().0@;
            assert(entry_keys(s)[j] == entry_keys(s)[s.len() - 1]);
        }
    }
}

/// The key of the balance of `asset` of `user_id`: "balance:<user>:<asset>".
pub open spec fn balance_key(user_id: Seq<char>, asset: Seq<char>) -> Seq<char> {
    "balance:"@ + user_id + ":"@ + asset
}

/// Whether `r` is the balance that the read answer `answer` gives: none for none, else
/// the number the document holds, or a serialization error with the text of the
/// failure.
pub open spec fn balance_answer(answer: Option<serde_json::Value>, r: Result<Option<u64>, CacheError>) -> bool {
    match answer {
        None => r matches Ok(None),
        Some(v) => match json_u64(v) {
            Ok(n) => r matches Ok(Some(m)) && m == n,
            Err(t) => r matches Err(CacheError::SerializationError(s)) && s@ == t,
        },
    }
}

/// The balance that the answer of a read gives (see `balance_answer`).
pub fn balance_of_answer(answer: Option<serde_json::Value>) -> (r: Result<Option<u64>, CacheError>)
    ensures
        balance_answer(answer, r),
        forall|n: u64| answer == Some(#[trigger] json_number(n)) ==> (r matches Ok(Some(m)) && m == n),
{
    match answer {
        None => Ok(None),
        Some(v) => match json_to_u64(v) {
            Ok(n) => Ok(Some(n)),
            Err(e) => Err(CacheError::SerializationError(e)),
        },
    }
}

/// The balances cache: a write-behind cache that writes through every 100 ms and keeps
/// entries for five minutes, under `balance_key`.
pub struct BalanceCache {
    cache: WriteBehindCache,
}

impl BalanceCache {
    /// The cache underneath.
    pub closed spec fn inner(&self) -> WriteBehindCache {
        self.cache
    }

    /// An empty balances cache.
    pub fn new() -> (r: Self)
        ensures
            r.inner().wf(),
            r.inner().interval() == 100,
            r.inner().ttl() == 300_000,
            r.inner().l1() == Map::<Seq<char>, CacheEntry>::empty(),
    {
        BalanceCache { cache: WriteBehindCache::new(100, 300_000) }
    }

    /// The key of a balance.
    pub fn balance_key(user_id: &str, asset: &str) -> (r: String)
        ensures
            r@ == balance_key(user_id@, asset@),
    {
        let head = join3("balance:", user_id, ":");
        let r = join3(head.as_str(), asset, "");
        proof {
            reveal_strlit("");
            assert(r@ =~= balance_key(user_id@, asset@));
        }
        r
    }

    /// The cache underneath, for the steps of a read or write.
    pub fn cache_mut(&mut self) -> (r: &mut WriteBehindCache)
        ensures
            *r == old(self).inner(),
            final(self).inner() == *final(r),
    {
        &mut self.cache
    }

    /// The first step of reading the balance of `asset` of `user_id` at `now` (see
    /// `WriteBehindCache::get_l1`): on a first-level hit, the balance the document gives;
    /// none when the slower levels must be asked, whose answer `balance_of_answer` reads.
    pub fn get_balance(&mut self, user_id: &str, asset: &str, now: u64) -> (r: Option<Result<Option<u64>, CacheError>>)
        requires
            old(self).inner().wf(),
        ensures
            final(self).inner().wf(),
            ({
                let k = balance_key(user_id@, asset@);
                let m = old(self).inner().l1();
                if m.contains_key(k) && !expired(m[k], now) {
                    &&& r matches Some(b) && balance_answer(Some(m[k].value), b)
                    &&& forall|n: u64| m[k].value == #[trigger] json_number(n) ==> (r matches Some(Ok(Some(x))) && x == n)
                    &&& final(self).inner().l1() == m
                    &&& final(self).inner().counters() == (CacheMetrics {
                        l1_hits: bump(old(self).inner().counters().l1_hits),
                        ..old(self).inner().counters()
                    })
                } else {
                    &&& r is None
                    &&& final(self).inner().l1() == m.remove(k)
                    &&& final(self).inner().counters() == (CacheMetrics {
                        l1_misses: bump(old(self).inner().counters().l1_misses),
                        ..old(self).inner().counters()
                    })
                }
            }),
            final(self).inner().dirty() == old(self).inner().dirty(),
            final(self).inner().has_l2() == old(self).inner().has_l2(),
            final(self).inner().ttl() == old(self).inner().ttl(),
            final(self).inner().interval() == old(self).inner().interval(),
    {
        let key = Self::balance_key(user_id, asset);
        match self.cache.get_l1(key.as_str(), now) {
            Some(v) => Some(balance_of_answer(Some(v))),
            None => None,
        }
    }

    /// Writes the balance `amount` of `asset` of `user_id` at `now`: the JSON number
    /// `amount` is written under `balance_key` (see `WriteBehindCache::set`).
    pub fn update_balance(&mut self, user_id: &str, asset: &str, amount: u64, now: u64)
        requires
            old(self).inner().wf(),
            old(self).inner().l1().contains_key(balance_key(user_id@, asset@))
                ==> old(self).inner().l1()[balance_key(user_id@, asset@)].version < u64::MAX,
        ensures
            final(self).inner().wf(),
            final(self).inner().l1() == written(old(self).inner().l1(), balance_key(user_id@, asset@), json_number(amount),
                old(self).inner().ttl(), now),
            final(self).inner().dirty() == old(self).inner().dirty().insert(balance_key(user_id@, asset@)),
            final(self).inner().counters() == old(self).inner().counters(),
            final(self).inner().has_l2() == old(self).inner().has_l2(),
            final(self).inner().ttl() == old(self).inner().ttl(),
            final(self).inner().interval() == old(self).inner().interval(),
    {
        let key = Self::balance_key(user_id, asset);
        let value = json_from_u64(amount);
        self.cache.set(key.as_str(), value, now);
    }

    /// The balance after adding `delta` to what was read (0 when nothing was).
    pub fn add_balance(current: Option<u64>, delta: u64) -> (r: u64)
        requires
            (match current { Some(c) => c, None => 0u64 }) + delta <= u64::MAX,
        ensures
            r == (match current { Some(c) => c, None => 0u64 }) + delta,
    {
        let c = match current {
            Some(c) => c,
            None => 0,
        };
        c + delta
    }

    /// The balance after taking `delta` off what was read (0 when nothing was), or none
    /// when that is less than `delta` (nothing is then written).
    pub fn subtract_balance(current: Option<u64>, delta: u64) -> (r: Option<u64>)
        ensures
            ({
                let c = match current { Some(c) => c, None => 0u64 };
                if c >= delta { r == Some((c - delta) as u64) } else { r is None }
            }),
    {
        let c = match current {
            Some(c) => c,
            None => 0,
        };
        if c >= delta {
            Some(c - delta)
        } else {
            None
        }
    }
}

/// A read gives back a write: after `value` is written for `key` at `now`, the first
/// level holds it, and a read of `key` at any time up to its lifetime later finds it
/// unexpired with that document.
pub proof fn law_read_after_write(l1: Map<Seq<char>, CacheEntry>, key: Seq<char>, value: serde_json::Value,
    ttl: u64, now: u64, later: u64)
    requires
        now <= later,
        later - now <= if l1.contains_key(key) { l1[key].ttl } else { ttl },
    ensures
        written(l1, key, value, ttl, now).contains_key(key),
        written(l1, key, value, ttl, now)[key].value == value,
        !expired(written(l1, key, value, ttl, now)[key], later),
{
}

/// Dropping a key from the first level makes the next read of it miss there.
pub proof fn law_read_after_invalidate(l1: Map<Seq<char>, CacheEntry>, key: Seq<char>)
    ensures
        !l1.remove(key).contains_key(key),
{
}

} // verus!
