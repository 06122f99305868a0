//! The library's calls into std and outside crates whose behaviour Verus cannot see:
//! the clock, random draws, uuid, chrono, serde_json documents, lower casing, and the
//! `dashmap` and `crossbeam` collections of the lock-free cache. Each function here
//! makes its call and converts arguments and result; nothing is proved of what comes
//! back beyond what its contract states.

use vstd::prelude::*;
use crate::cache::lockfree_cache::{WriteOperation, WriteType};

verus! {

/// Reads the wall clock through `std::time::SystemTime::now` and returns the time
/// since the Unix epoch in whole seconds (0 if the clock reads before the epoch).
/// The value depends on the machine's clock, so no contract is given.
#[verifier::external_body]
pub(crate) fn unix_time_secs() -> u64 {
    match std::time::SystemTime::now().duration_since(std::time::UNIX_EPOCH) {
        Ok(d) => d.as_secs(),
        Err(_) => 0,
    }
}

/// Reads the wall clock through `std::time::SystemTime::now` and returns the time
/// since the Unix epoch in milliseconds, truncated to 64 bits (0 if the clock reads
/// before the epoch). The value depends on the machine's clock: no contract.
#[verifier::external_body]
pub(crate) fn unix_time_millis() -> u64 {
    match std::time::SystemTime::now().duration_since(std::time::UNIX_EPOCH) {
        Ok(d) => d.as_millis() as u64,
        Err(_) => 0,
    }
}

/// Draws a random version-4 identifier with `uuid::Uuid::new_v4` and renders it with
/// its `Display` impl, which writes the lower-case hyphenated form: 36 characters.
/// Which identifier comes out is left open (it is random).
#[verifier::external_body]
pub(crate) fn new_uuid_string() -> (r: String)
    ensures
        r@.len() == 36,
{
    uuid::Uuid::new_v4().to_string()
}

/// `std::time::Instant`, a point on the monotonic clock, carried through as an opaque
/// value.
#[verifier::external_type_specification]
#[verifier::external_body]
pub struct ExInstant(std::time::Instant);

/// Reads the monotonic clock through `std::time::Instant::now`. No contract: the value
/// depends on when it is called.
#[verifier::external_body]
pub(crate) fn instant_now() -> std::time::Instant {
    std::time::Instant::now()
}

/// The whole milliseconds elapsed since `start`, through `std::time::Instant::elapsed`
/// (truncated to 64 bits). No contract: the value depends on the clock.
#[verifier::external_body]
pub(crate) fn millis_since(start: &std::time::Instant) -> u64 {
    start.elapsed().as_millis() as u64
}

/// `serde_json::Value`, a JSON document, carried through as an opaque value.
#[verifier::external_type_specification]
#[verifier::external_body]
pub struct ExJsonValue(serde_json::Value);

/// `Clone` of `serde_json::Value` (derived in serde_json): the copy is the same
/// document.
pub assume_specification[ <serde_json::Value as Clone>::clone ](v: &serde_json::Value) -> (r:
    serde_json::Value)
    ensures
        r == *v,
;

/// The JSON array of the given documents, as `serde_json::Value::Array` builds it.
pub uninterp spec fn json_array_of(items: Seq<serde_json::Value>) -> serde_json::Value;

/// Builds `serde_json::Value::Array(items)`: the array of the given documents, in order
/// (named, since the document is opaque here).
#[verifier::external_body]
pub(crate) fn json_array(items: Vec<serde_json::Value>) -> (r: serde_json::Value)
    ensures
        r == json_array_of(items@),
{
    serde_json::Value::Array(items)
}

/// `serde_json::Value::Null`, the JSON null document. Nothing is stated of it: the
/// document is opaque here.
#[verifier::external_body]
pub(crate) fn json_null() -> serde_json::Value {
    serde_json::Value::Null
}

/// Reads the wall clock through `std::time::SystemTime::now` and returns the time
/// since the Unix epoch in nanoseconds (0 if the clock reads before the epoch). The
/// value depends on the machine's clock: no contract.
#[verifier::external_body]
pub(crate) fn unix_time_nanos() -> u128 {
    match std::time::SystemTime::now().duration_since(std::time::UNIX_EPOCH) {
        Ok(d) => d.as_nanos(),
        Err(_) => 0,
    }
}

/// The nanoseconds elapsed since `start`, through `std::time::Instant::elapsed`
/// (truncated to 64 bits). No contract: the value depends on the clock.
#[verifier::external_body]
pub(crate) fn nanos_since(start: &std::time::Instant) -> u64 {
    start.elapsed().as_nanos() as u64
}

/// `std::time::SystemTime`, a reading of the wall clock, carried through as an opaque
/// value.
#[verifier::external_type_specification]
#[verifier::external_body]
pub struct ExSystemTime(std::time::SystemTime);

/// Reads the wall clock through `std::time::SystemTime::now`. No contract: the value
/// depends on when it is called.
#[verifier::external_body]
pub(crate) fn system_now() -> std::time::SystemTime {
    std::time::SystemTime::now()
}

/// The JSON object with the unsigned numbers `v1`, `v2` and `v3` under the keys `k1`,
/// `k2` and `k3`.
pub uninterp spec fn json_object3(k1: Seq<char>, v1: u64, k2: Seq<char>, v2: u64, k3: Seq<char>, v3: u64)
    -> serde_json::Value;

/// Builds, through `serde_json::Map::insert` and `serde_json::Value::Object`, the JSON
/// object with the numbers `v1`, `v2`, `v3` under the keys `k1`, `k2`, `k3`. The document
/// is opaque here, so the result is named: the same keys and numbers give the same
/// document.
#[verifier::external_body]
pub(crate) fn json_object_of_numbers(k1: &str, v1: u64, k2: &str, v2: u64, k3: &str, v3: u64) -> (r:
    serde_json::Value)
    ensures
        r == json_object3(k1@, v1, k2@, v2, k3@, v3),
{
    let mut m = serde_json::Map::new();
    m.insert(k1.to_string(), serde_json::Value::from(v1));
    m.insert(k2.to_string(), serde_json::Value::from(v2));
    m.insert(k3.to_string(), serde_json::Value::from(v3));
    serde_json::Value::Object(m)
}

/// The JSON number of an unsigned integer, as `serde_json::Value::from(u64)` builds it.
pub uninterp spec fn json_number(n: u64) -> serde_json::Value;

/// Builds `serde_json::Value::from(n)`, the JSON number `n`. The document is opaque
/// here, so the result is named: the same number gives the same document.
#[verifier::external_body]
pub(crate) fn json_from_u64(n: u64) -> (r: serde_json::Value)
    ensures
        r == json_number(n),
{
    serde_json::Value::from(n)
}

/// What `serde_json::from_value::<u64>` makes of a document: the number, or the text of
/// the error when the document is not an unsigned number that fits in 64 bits.
pub uninterp spec fn json_u64(v: serde_json::Value) -> Result<u64, Seq<char>>;

/// Reads a document as an unsigned 64-bit number through `serde_json::from_value`,
/// giving the error as its text. The outcome is a function of the document, so it is
/// named; a document built by `Value::from(n)` (a non-negative integer number) is read
/// back as `n`.
#[verifier::external_body]
pub(crate) fn json_to_u64(v: serde_json::Value) -> (r: Result<u64, String>)
    ensures
        match r {
            Ok(n) => json_u64(v) == Ok::<u64, Seq<char>>(n),
            Err(e) => json_u64(v) == Err::<u64, Seq<char>>(e@),
        },
        r is Ok || (forall|n: u64| v != #[trigger] json_number(n)),
        r matches Ok(m) ==> (forall|n: u64| v == #[trigger] json_number(n) ==> m == n),
{
    serde_json::from_value::<u64>(v).map_err(|e| e.to_string())
}

/// The text of a time given in milliseconds since the Unix epoch, as chrono writes it
/// for UTC with the strftime pattern `pattern`.
pub uninterp spec fn utc_text(millis: u64, pattern: Seq<char>) -> Seq<char>;

/// The first time, in milliseconds since the Unix epoch, past chrono's last date
/// (262142-12-31 23:59:59.999 UTC).
pub open spec fn hour_text_limit() -> u64 {
    8_210_266_876_800_000
}

/// A strftime pattern whose every `%` starts one of `%Y`, `%m`, `%d`, `%H`: chrono
/// formats such a pattern without error.
pub open spec fn plain_time_pattern(p: Seq<char>) -> bool {
    forall|i: int|
        0 <= i < p.len() && #[trigger] p[i] == '%' ==> i + 1 < p.len() && (p[i + 1] == 'Y' || p[i + 1] == 'm'
            || p[i + 1] == 'd' || p[i + 1] == 'H')
}

/// Writes `millis` through chrono: `UNIX_EPOCH + millis`, turned into a
/// `chrono::DateTime<Utc>` by its `From<SystemTime>` impl and formatted with `pattern`.
/// That impl unwraps `Utc.timestamp_opt`, which fails past chrono's last date, hence the
/// bound; a pattern with another specifier would make `to_string` panic, hence the
/// second bound. The text is named, not stated.
#[verifier::external_body]
pub(crate) fn utc_format(millis: u64, pattern: &str) -> (r: String)
    requires
        millis < hour_text_limit(),
        plain_time_pattern(pattern@),
    ensures
        r@ == utc_text(millis, pattern@),
{
    let t = std::time::UNIX_EPOCH + std::time::Duration::from_millis(millis);
    chrono::DateTime::<chrono::Utc>::from(t).format(pattern).to_string()
}

/// Reads the clock through `chrono::Utc::now` and returns its `timestamp()` (whole
/// seconds since the Unix epoch) cast to 64 unsigned bits. No contract: the value
/// depends on the clock. `Utc::now` panics when the clock reads before 1970, which no
/// argument here can rule out.
#[verifier::external_body]
pub(crate) fn utc_now_secs() -> u64 {
    chrono::Utc::now().timestamp() as u64
}

/// Draws a number from `low..=high` with `rand::thread_rng().gen_range`, which panics
/// on an empty range (hence `low <= high`) and otherwise gives a value in the range.
/// Which one is left open: it is random.
#[verifier::external_body]
pub(crate) fn random_in(low: u64, high: u64) -> (r: u64)
    requires
        low <= high,
    ensures
        low <= r <= high,
{
    rand::Rng::gen_range(&mut rand::thread_rng(), low..=high)
}

/// What `std::collections::hash_map::DefaultHasher` gives for a text: a fresh hasher
/// from `DefaultHasher::new`, the text's `Hash`, then `finish`.
pub uninterp spec fn default_hash_of_str(key: Seq<char>) -> u64;

/// Hashes `key` with a fresh `DefaultHasher` (`new`, `Hash::hash`, `Hasher::finish`).
/// Every hasher made by `DefaultHasher::new` starts from the same fixed state (the
/// documentation guarantees that all of them are the same), so equal texts give equal
/// hashes; the hash itself is named, not stated.
#[verifier::external_body]
pub(crate) fn hash_str(key: &str) -> (r: u64)
    ensures
        r == default_hash_of_str(key@),
{
    let mut h = std::collections::hash_map::DefaultHasher::new();
    std::hash::Hash::hash(key, &mut h);
    std::hash::Hasher::finish(&h)
}

/// The lower-case form of a string, as `str::to_lowercase` gives it.
pub uninterp spec fn lowercase(s: Seq<char>) -> Seq<char>;

/// `str::to_lowercase` on the string made of `word`'s characters: the Unicode lower-case
/// mapping of each character (named, not written out).
#[verifier::external_body]
pub(crate) fn to_lower(word: &Vec<char>) -> (r: String)
    ensures
        r@ == lowercase(word@),
{
    let s: String = word.iter().collect();
    s.to_lowercase()
}

#[verifier::external_type_specification]
#[verifier::external_body]
#[verifier::reject_recursive_types(K)]
#[verifier::reject_recursive_types(V)]
#[verifier::reject_recursive_types(S)]
pub struct ExDashMap<K, V, S>(dashmap::DashMap<K, V, S>);

#[verifier::external_type_specification]
#[verifier::external_body]
#[verifier::reject_recursive_types(T)]
pub struct ExSegQueue<T>(crossbeam::queue::SegQueue<T>);

/// The balances a `dashmap::DashMap` of atomic counters holds: each key with the value
/// its counter holds.
pub uninterp spec fn dash_values(m: dashmap::DashMap<String, std::sync::atomic::AtomicU64>) -> Map<Seq<char>, u64>;

/// No balance at all.
pub open spec fn no_balances() -> Map<Seq<char>, u64> {
    Map::empty()
}

/// `DashMap::new`: a map with no key.
#[verifier::external_body]
pub(crate) fn dash_new() -> (r: dashmap::DashMap<String, std::sync::atomic::AtomicU64>)
    ensures
        dash_values(r) == no_balances(),
{
    dashmap::DashMap::new()
}

/// `DashMap::get` then `AtomicU64::load`: the value of `key`, if the map holds it.
#[verifier::external_body]
pub(crate) fn dash_get(m: &dashmap::DashMap<String, std::sync::atomic::AtomicU64>, key: &str) -> (r: Option<u64>)
    ensures
        r == (if dash_values(*m).contains_key(key@) { Some(dash_values(*m)[key@]) } else { None::<u64> }),
{
    match m.get(key) {
        Some(e) => Some(e.load(std::sync::atomic::Ordering::Relaxed)),
        None => None,
    }
}

/// `DashMap::entry(..).or_insert(AtomicU64::new(0))` then `AtomicU64::store`: `key`
/// then holds `v`.
#[verifier::external_body]
pub(crate) fn dash_store(m: &mut dashmap::DashMap<String, std::sync::atomic::AtomicU64>, key: &str, v: u64)
    ensures
        dash_values(*final(m)) == dash_values(*old(m)).insert(key@, v),
{
    m.entry(key.to_string()).or_insert(std::sync::atomic::AtomicU64::new(0)).store(v, std::sync::atomic::Ordering::Relaxed);
}

/// `DashMap::entry(..).or_insert(AtomicU64::new(0))` then `AtomicU64::fetch_add`: the
/// value of `key` (0 for a new key) grows by `delta`, wrapping at 2^64; answers the
/// value before.
#[verifier::external_body]
pub(crate) fn dash_fetch_add(m: &mut dashmap::DashMap<String, std::sync::atomic::AtomicU64>, key: &str, delta: u64)
    -> (r: u64)
    ensures
        r == (if dash_values(*old(m)).contains_key(key@) { dash_values(*old(m))[key@] } else { 0u64 }),
        dash_values(*final(m)) == dash_values(*old(m)).insert(key@, r.wrapping_add(delta)),
{
    m.entry(key.to_string()).or_insert(std::sync::atomic::AtomicU64::new(0)).fetch_add(delta, std::sync::atomic::Ordering::Relaxed)
}

/// `DashMap::get` then `AtomicU64::fetch_sub`: a kept value of `key` shrinks by
/// `delta`, wrapping at 0; answers the value before, or none (nothing changes) for a
/// key the map does not hold.
#[verifier::external_body]
pub(crate) fn dash_fetch_sub(m: &mut dashmap::DashMap<String, std::sync::atomic::AtomicU64>, key: &str, delta: u64)
    -> (r: Option<u64>)
    ensures
        dash_values(*old(m)).contains_key(key@) ==> r == Some(dash_values(*old(m))[key@]) && dash_values(*final(m))
            == dash_values(*old(m)).insert(key@, dash_values(*old(m))[key@].wrapping_sub(delta)),
        !dash_values(*old(m)).contains_key(key@) ==> r is None && dash_values(*final(m)) == dash_values(*old(m)),
{
    match m.get(key) {
        Some(e) => Some(e.fetch_sub(delta, std::sync::atomic::Ordering::Relaxed)),
        None => None,
    }
}

/// `DashMap::entry(..).or_insert(AtomicU64::new(0))` then
/// `AtomicU64::compare_exchange`: with `key` kept (as 0 when new), its value becomes
/// `new` when it was `expected` (answering `Ok` with the value before), and stays
/// otherwise (answering `Err` with it).
#[verifier::external_body]
pub(crate) fn dash_compare_exchange(
    m: &mut dashmap::DashMap<String, std::sync::atomic::AtomicU64>,
    key: &str,
    expected: u64,
    new: u64,
) -> (r: Result<u64, u64>)
    ensures
        ({
            let cur = if dash_values(*old(m)).contains_key(key@) { dash_values(*old(m))[key@] } else { 0u64 };
            if cur == expected {
                r == Ok::<u64, u64>(cur) && dash_values(*final(m)) == dash_values(*old(m)).insert(key@, new)
            } else {
                r == Err::<u64, u64>(cur) && dash_values(*final(m)) == dash_values(*old(m)).insert(key@, cur)
            }
        }),
{
    m.entry(key.to_string()).or_insert(std::sync::atomic::AtomicU64::new(0)).compare_exchange(
        expected,
        new,
        std::sync::atomic::Ordering::Relaxed,
        std::sync::atomic::Ordering::Relaxed,
    )
}

/// `DashMap::len`: the number of keys held.
#[verifier::external_body]
pub(crate) fn dash_len(m: &dashmap::DashMap<String, std::sync::atomic::AtomicU64>) -> (r: usize)
    ensures
        r == dash_values(*m).dom().len(),
{
    m.len()
}

/// What a queue of writes holds, oldest first: each write's key, value and kind.
pub uninterp spec fn seg_items(q: crossbeam::queue::SegQueue<WriteOperation>) -> Seq<(Seq<char>, u64, WriteType)>;

/// No queued write.
pub open spec fn no_writes() -> Seq<(Seq<char>, u64, WriteType)> {
    Seq::empty()
}

/// `SegQueue::new`: an empty queue.
#[verifier::external_body]
pub(crate) fn seg_new() -> (r: crossbeam::queue::SegQueue<WriteOperation>)
    ensures
        seg_items(r) == no_writes(),
{
    crossbeam::queue::SegQueue::new()
}

/// `SegQueue::push`: `op` joins the back of the queue.
#[verifier::external_body]
pub(crate) fn seg_push(q: &mut crossbeam::queue::SegQueue<WriteOperation>, op: WriteOperation)
    ensures
        seg_items(*final(q)) == seg_items(*old(q)).push((op.key@, op.value, op.operation_type)),
{
    q.push(op);
}

/// `SegQueue::pop`: the oldest write leaves the queue and is answered; none from an
/// empty queue. (The time a write carries is not described.)
#[verifier::external_body]
pub(crate) fn seg_pop(q: &mut crossbeam::queue::SegQueue<WriteOperation>) -> (r: Option<WriteOperation>)
    ensures
        seg_items(*old(q)).len() == 0 ==> r is None && seg_items(*final(q)) == seg_items(*old(q)),
        seg_items(*old(q)).len() > 0 ==> (r matches Some(op) && (op.key@, op.value, op.operation_type)
            == seg_items(*old(q))[0]) && seg_items(*final(q)) == seg_items(*old(q)).drop_first(),
{
    q.pop()
}

/// `SegQueue::len`: the number of writes queued.
#[verifier::external_body]
pub(crate) fn seg_len(q: &crossbeam::queue::SegQueue<WriteOperation>) -> (r: usize)
    ensures
        r == seg_items(*q).len(),
{
    q.len()
}

} // verus!


