//! Tracks the levels last sent for each symbol and turns new order book snapshots into
//! delta updates (the levels added, changed or removed) or full snapshots, each with a
//! per-symbol sequence number.

use vstd::prelude::*;
use vstd::hash_map::StringHashMap;
use crate::api::models::{OrderBookChange, OrderBookChangeType, OrderBookDelta, OrderBookSnapshot};
use crate::model::OrderBookSnapshot as EngineOrderBookSnapshot;
use crate::outside::unix_time_millis;

verus! {

/// A snapshot is due at `now` when at least `interval` milliseconds have passed since
/// `last`, the difference taken modulo 2^64.
pub open spec fn snapshot_due(last: u64, now: u64, interval: u64) -> bool {
    (now - last) % 0x1_0000_0000_0000_0000 >= interval
}


/// Whether some level of `s` has price `p`.
pub open spec fn has_price(s: Seq<(u64, u64)>, p: u64) -> bool {
    exists|i: int| 0 <= i < s.len() && s[i].0 == p
}

/// The quantity of the last level of `s` with price `p` (0 if there is none).
pub open spec fn last_qty(s: Seq<(u64, u64)>, p: u64) -> u64
    decreases s.len(),
{
    if s.len() == 0 {
        0
    } else if s.last().0 == p {
        s.last().1
    } else {
        last_qty(s.drop_last(), p)
    }
}

/// The change that the level `cur[k]` stands for: an update when its price was in
/// `prev` (and is met for the first time in `cur`) with another quantity, nothing when
/// the quantity is the same, an addition otherwise.
pub open spec fn level_change(prev: Seq<(u64, u64)>, cur: Seq<(u64, u64)>, k: int) -> Option<OrderBookChange> {
    let (p, q) = cur[k];
    if has_price(prev, p) && !has_price(cur.take(k), p) {
        if last_qty(prev, p) != q {
            Some(OrderBookChange { change_type: OrderBookChangeType::Update, price: p, quantity: q })
        } else {
            None
        }
    } else {
        Some(OrderBookChange { change_type: OrderBookChangeType::Add, price: p, quantity: q })
    }
}

/// The removal that the level `prev[k]` stands for: one per price of `prev` (at its
/// first level) that `cur` no longer has.
pub open spec fn level_removal(prev: Seq<(u64, u64)>, cur: Seq<(u64, u64)>, k: int) -> Option<OrderBookChange> {
    let p = prev[k].0;
    if !has_price(cur, p) && !has_price(prev.take(k), p) {
        Some(OrderBookChange { change_type: OrderBookChangeType::Remove, price: p, quantity: 0 })
    } else {
        None
    }
}

/// Appends the change, if any.
pub open spec fn push_opt(s: Seq<OrderBookChange>, c: Option<OrderBookChange>) -> Seq<OrderBookChange> {
    match c {
        Some(c) => s.push(c),
        None => s,
    }
}

/// The changes of the first `n` levels of `cur`, in the order of `cur`.
pub open spec fn changes_upto(prev: Seq<(u64, u64)>, cur: Seq<(u64, u64)>, n: int) -> Seq<OrderBookChange>
    decreases n,
{
    if n <= 0 {
        Seq::empty()
    } else {
        push_opt(changes_upto(prev, cur, n - 1), level_change(prev, cur, n - 1))
    }
}

/// The removals for the first `n` levels of `prev`, in the order of `prev`.
pub open spec fn removals_upto(prev: Seq<(u64, u64)>, cur: Seq<(u64, u64)>, n: int) -> Seq<OrderBookChange>
    decreases n,
{
    if n <= 0 {
        Seq::empty()
    } else {
        push_opt(removals_upto(prev, cur, n - 1), level_removal(prev, cur, n - 1))
    }
}

/// All changes from the levels `prev` to the levels `cur`: additions and updates in the
/// order of `cur`, then removals in the order of `prev`.
pub open spec fn level_changes(prev: Seq<(u64, u64)>, cur: Seq<(u64, u64)>) -> Seq<OrderBookChange> {
    changes_upto(prev, cur, cur.len() as int) + removals_upto(prev, cur, prev.len() as int)
}

fn contains_price(s: &Vec<(u64, u64)>, n: usize, p: u64) -> (r: bool)
    requires
        n <= s@.len(),
    ensures
        r == has_price(s@.take(n as int), p),
{
    let mut i: usize = 0;
    while i < n
        invariant
            n <= s@.len(),
            i <= n,
            forall|j: int| 0 <= j < i ==> s@[j].0 != p,
        decreases n - i,
    {
        if s[i].0 == p {
            assert(s@.take(n as int)[i as int].0 == p);
            return true;
        }
        i = i + 1;
    }
    assert forall|j: int| 0 <= j < s@.take(n as int).len() implies s@.take(n as int)[j].0 != p by {
        assert(s@.take(n as int)[j] == s@[j]);
    }
    false
}

proof fn lemma_last_qty_prefix(s: Seq<(u64, u64)>, p: u64, i: int)
    requires
        0 <= i < s.len(),
    ensures
        last_qty(s.take(i + 1), p) == if s[i].0 == p { s[i].1 } else { last_qty(s.take(i), p) },
{
    assert(s.take(i + 1).drop_last() =~= s.take(i));
    assert(s.take(i + 1).last() == s[i]);
}

fn last_quantity(s: &Vec<(u64, u64)>, p: u64) -> (r: u64)
    ensures
        r == last_qty(s@, p),
{
    let n = s.len();
    let mut q: u64 = 0;
    let mut i: usize = 0;
    proof {
        assert(s@.take(0).len() == 0);
    }
    while i < n
        invariant
            n == s@.len(),
            i <= n,
            q == last_qty(s@.take(i as int), p),
        decreases n - i,
    {
        proof {
            lemma_last_qty_prefix(s@, p, i as int);
        }
        if s[i].0 == p {
            q = s[i].1;
        }
        i = i + 1;
    }
    proof {
        assert(s@.take(n as int) =~= s@);
    }
    q
}

/// The changes from the levels `previous` to the levels `current`.
fn analyze_price_level_changes(previous: &Vec<(u64, u64)>, current: &Vec<(u64, u64)>) -> (r: Vec<OrderBookChange>)
    ensures
        r@ == level_changes(previous@, current@),
{
    let mut changes: Vec<OrderBookChange> = Vec::new();
    let n = current.len();
    let np = previous.len();
    let mut k: usize = 0;
    while k < n
        invariant
            n == current@.len(),
            np == previous@.len(),
            k <= n,
            changes@ == changes_upto(previous@, current@, k as int),
        decreases n - k,
    {
        let (p, q) = current[k];
        let in_prev = contains_price(previous, np, p);
        let seen = contains_price(current, k, p);
        proof {
            assert(previous@.take(np as int) =~= previous@);
        }
        if in_prev && !seen {
            let prev_q = last_quantity(previous, p);
            if prev_q != q {
                changes.push(OrderBookChange { change_type: OrderBookChangeType::Update, price: p, quantity: q });
            }
        } else {
            changes.push(OrderBookChange { change_type: OrderBookChangeType::Add, price: p, quantity: q });
        }
        k = k + 1;
    }
    let ghost adds = changes@;
    let mut j: usize = 0;
    while j < np
        invariant
            n == current@.len(),
            np == previous@.len(),
            j <= np,
            adds == changes_upto(previous@, current@, n as int),
            changes@ == adds + removals_upto(previous@, current@, j as int),
        decreases np - j,
    {
        let p = previous[j].0;
        let in_cur = contains_price(current, n, p);
        let seen = contains_price(previous, j, p);
        proof {
            assert(current@.take(n as int) =~= current@);
        }
        if !in_cur && !seen {
            changes.push(OrderBookChange { change_type: OrderBookChangeType::Remove, price: p, quantity: 0 });
        }
        proof {
            assert(push_opt(adds + removals_upto(previous@, current@, j as int), level_removal(previous@, current@, j as int))
                =~= adds + removals_upto(previous@, current@, j + 1));
        }
        j = j + 1;
    }
    changes
}

fn copy_levels(s: &Vec<(u64, u64)>) -> (r: Vec<(u64, u64)>)
    ensures
        r@ == s@,
{
    let mut out: Vec<(u64, u64)> = Vec::new();
    let mut i: usize = 0;
    while i < s.len()
        invariant
            i <= s@.len(),
            out@ == s@.take(i as int),
        decreases s@.len() - i,
    {
        out.push(s[i]);
        proof {
            assert(s@.take(i + 1) =~= s@.take(i as int).push(s@[i as int]));
        }
        i = i + 1;
    }
    proof {
        assert(s@.take(s@.len() as int) =~= s@);
    }
    out
}

/// Tracks, per symbol, the levels last sent, the sequence number and the time of the
/// last snapshot.
pub struct OrderBookTracker {
    previous_snapshots: StringHashMap<(Vec<(u64, u64)>, Vec<(u64, u64)>)>,
    sequence_numbers: StringHashMap<u64>,
    delta_threshold: usize,
    snapshot_interval_ms: u64,
    last_snapshot_time: StringHashMap<u64>,
}

/// How a call moves the sequence numbers: that of `sym` goes up by one when the call
/// counted an update of it (a snapshot made, a delta handed out); no other moves.
pub open spec fn sequence_step(t0: OrderBookTracker, t1: OrderBookTracker, sym: Seq<char>, counted: bool) -> bool {
    forall|s: Seq<char>|
        #[trigger] t1.sequence_of(s) == t0.sequence_of(s) + (if counted && s == sym { 1int } else { 0int })
}

/// How a call moves the times of the last snapshots: that of `sym` becomes `set` when
/// the call recorded one; no other moves.
pub open spec fn time_step(t0: OrderBookTracker, t1: OrderBookTracker, sym: Seq<char>, set: Option<u64>) -> bool {
    forall|s: Seq<char>|
        #[trigger] t1.last_time_of(s) == (if s == sym && set is Some { set->0 } else { t0.last_time_of(s) })
}

/// The number of calls of a run that counted an update of `s`.
pub open spec fn updates_of(syms: Seq<Seq<char>>, counted: Seq<bool>, s: Seq<char>) -> nat
    decreases syms.len(),
{
    if syms.len() == 0 {
        0
    } else {
        updates_of(syms.drop_last(), counted.drop_last(), s) + (if counted[syms.len() - 1] && syms.last() == s {
            1nat
        } else {
            0nat
        })
    }
}

/// The time of the last snapshot of `s` after a run: the last time recorded for `s`,
/// or `init` when none was.
pub open spec fn last_recorded(syms: Seq<Seq<char>>, sets: Seq<Option<u64>>, s: Seq<char>, init: u64) -> u64
    decreases syms.len(),
{
    if syms.len() == 0 {
        init
    } else if syms.last() == s && sets[syms.len() - 1] is Some {
        sets[syms.len() - 1]->0
    } else {
        last_recorded(syms.drop_last(), sets.drop_last(), s, init)
    }
}

/// Over any run of calls (the trackers `ts`, call `i` leading from `ts[i]` to
/// `ts[i + 1]` for symbol `syms[i]`), the sequence number of a symbol grows by the
/// number of snapshots and deltas made for it.
pub proof fn law_sequence_counts_updates(
    ts: Seq<OrderBookTracker>,
    syms: Seq<Seq<char>>,
    counted: Seq<bool>,
    s: Seq<char>,
)
    requires
        ts.len() == syms.len() + 1,
        counted.len() == syms.len(),
        forall|i: int| 0 <= i < syms.len() ==> sequence_step(#[trigger] ts[i], ts[i + 1], syms[i], counted[i]),
    ensures
        ts.last().sequence_of(s) == ts[0].sequence_of(s) + updates_of(syms, counted, s),
    decreases syms.len(),
{
    if syms.len() > 0 {
        let n = syms.len() - 1;
        assert forall|i: int| 0 <= i < syms.drop_last().len() implies sequence_step(
            #[trigger] ts.drop_last()[i],
            ts.drop_last()[i + 1],
            syms.drop_last()[i],
            counted.drop_last()[i],
        ) by {
            assert(sequence_step(ts[i], ts[i + 1], syms[i], counted[i]));
        }
        law_sequence_counts_updates(ts.drop_last(), syms.drop_last(), counted.drop_last(), s);
        assert(sequence_step(ts[n], ts[n + 1], syms[n], counted[n]));
        assert(ts[n + 1].sequence_of(s) == ts[n].sequence_of(s) + (if counted[n] && s == syms[n] { 1int } else {
            0int
        }));
    }
}

/// Over any run of calls, the time of the last snapshot of a symbol is the last time a
/// call recorded for it (a snapshot found due), and what it was before when none did.
pub proof fn law_last_time_only_when_due(
    ts: Seq<OrderBookTracker>,
    syms: Seq<Seq<char>>,
    sets: Seq<Option<u64>>,
    s: Seq<char>,
)
    requires
        ts.len() == syms.len() + 1,
        sets.len() == syms.len(),
        forall|i: int| 0 <= i < syms.len() ==> time_step(#[trigger] ts[i], ts[i + 1], syms[i], sets[i]),
    ensures
        ts.last().last_time_of(s) == last_recorded(syms, sets, s, ts[0].last_time_of(s)),
    decreases syms.len(),
{
    if syms.len() > 0 {
        let n = syms.len() - 1;
        assert forall|i: int| 0 <= i < syms.drop_last().len() implies time_step(
            #[trigger] ts.drop_last()[i],
            ts.drop_last()[i + 1],
            syms.drop_last()[i],
            sets.drop_last()[i],
        ) by {
            assert(time_step(ts[i], ts[i + 1], syms[i], sets[i]));
        }
        law_last_time_only_when_due(ts.drop_last(), syms.drop_last(), sets.drop_last(), s);
        assert(time_step(ts[n], ts[n + 1], syms[n], sets[n]));
        assert(ts[n + 1].last_time_of(s) == (if s == syms[n] && sets[n] is Some { sets[n]->0 } else {
            ts[n].last_time_of(s)
        }));
    }
}


impl OrderBookTracker {
    /// The bid and ask levels last sent for `symbol`, if any.
    pub closed spec fn previous(&self, symbol: Seq<char>) -> Option<(Seq<(u64, u64)>, Seq<(u64, u64)>)> {
        if self.previous_snapshots@.contains_key(symbol) {
            Some((self.previous_snapshots@[symbol].0@, self.previous_snapshots@[symbol].1@))
        } else {
            None
        }
    }

    /// The sequence number of `symbol` (0 before the first update).
    pub closed spec fn sequence_of(&self, symbol: Seq<char>) -> u64 {
        if self.sequence_numbers@.contains_key(symbol) {
            self.sequence_numbers@[symbol]
        } else {
            0
        }
    }

    /// The time of the last snapshot sent for `symbol` (0 before the first).
    pub closed spec fn last_time_of(&self, symbol: Seq<char>) -> u64 {
        if self.last_snapshot_time@.contains_key(symbol) {
            self.last_snapshot_time@[symbol]
        } else {
            0
        }
    }

    /// The least number of level changes worth a delta.
    pub closed spec fn threshold(&self) -> usize {
        self.delta_threshold
    }

    /// The least time between two snapshots, in milliseconds.
    pub closed spec fn interval(&self) -> u64 {
        self.snapshot_interval_ms
    }

    /// A tracker that has seen nothing yet.
    pub fn new(delta_threshold: usize, snapshot_interval_ms: u64) -> (r: Self)
        ensures
            r.threshold() == delta_threshold,
            r.interval() == snapshot_interval_ms,
            forall|s: Seq<char>| r.previous(s) is None && r.sequence_of(s) == 0 && r.last_time_of(s) == 0,
    {
        OrderBookTracker {
            previous_snapshots: StringHashMap::new(),
            sequence_numbers: StringHashMap::new(),
            delta_threshold,
            snapshot_interval_ms,
            last_snapshot_time: StringHashMap::new(),
        }
    }

    /// Compares a new snapshot of `symbol` with the levels last sent. The first snapshot
    /// seen for a symbol only becomes the reference: no delta. Later, when the bid and
    /// ask changes together number at least the threshold, the sequence number goes up
    /// by one, the snapshot becomes the reference and the delta is returned; otherwise
    /// nothing changes and there is no delta.
    pub fn analyze_changes(&mut self, symbol: &str, current_snapshot: &EngineOrderBookSnapshot) -> (r:
        Option<OrderBookDelta>)
        requires
            old(self).sequence_of(symbol@) < u64::MAX,
        ensures
            final(self).threshold() == old(self).threshold(),
            final(self).interval() == old(self).interval(),
            forall|s: Seq<char>| s != symbol@ ==> final(self).previous(s) == old(self).previous(s)
                && final(self).sequence_of(s) == old(self).sequence_of(s),
            forall|s: Seq<char>| final(self).last_time_of(s) == old(self).last_time_of(s),
            match old(self).previous(symbol@) {
                None => {
                    &&& r is None
                    &&& final(self).previous(symbol@) == Some((current_snapshot.bids@, current_snapshot.asks@))
                    &&& final(self).sequence_of(symbol@) == old(self).sequence_of(symbol@)
                },
                Some((pb, pa)) => {
                    let bc = level_changes(pb, current_snapshot.bids@);
                    let ac = level_changes(pa, current_snapshot.asks@);
                    if bc.len() + ac.len() < old(self).threshold() {
                        &&& r is None
                        &&& final(self).previous(symbol@) == old(self).previous(symbol@)
                        &&& final(self).sequence_of(symbol@) == old(self).sequence_of(symbol@)
                    } else {
                        &&& r matches Some(d) && d.symbol@ == symbol@ && d.bid_changes@ == bc
                            && d.ask_changes@ == ac && d.sequence == old(self).sequence_of(symbol@) + 1
                        &&& final(self).previous(symbol@) == Some((current_snapshot.bids@, current_snapshot.asks@))
                        &&& final(self).sequence_of(symbol@) == old(self).sequence_of(symbol@) + 1
                    }
                },
            },
            sequence_step(*old(self), *final(self), symbol@, r is Some),
            time_step(*old(self), *final(self), symbol@, None),
    {
        let key = symbol.to_owned();
        let (bid_changes, ask_changes) = match self.previous_snapshots.get(symbol) {
            None => {
                let bids = copy_levels(&current_snapshot.bids);
                let asks = copy_levels(&current_snapshot.asks);
                self.previous_snapshots.insert(key, (bids, asks));
                return None;
            },
            Some(prev) => {
                let bc = analyze_price_level_changes(&prev.0, &current_snapshot.bids);
                let ac = analyze_price_level_changes(&prev.1, &current_snapshot.asks);
                (bc, ac)
            },
        };
        if bid_changes.len() < self.delta_threshold && ask_changes.len() < self.delta_threshold
            - bid_changes.len() {
            return None;
        }
        let sequence = match self.sequence_numbers.get(symbol) {
            Some(s) => *s + 1,
            None => 1,
        };
        self.sequence_numbers.insert(key.clone(), sequence);
        let bids = copy_levels(&current_snapshot.bids);
        let asks = copy_levels(&current_snapshot.asks);
        self.previous_snapshots.insert(key.clone(), (bids, asks));
        Some(
            OrderBookDelta {
                symbol: key,
                bid_changes,
                ask_changes,
                timestamp: unix_time_millis(),
                sequence,
            },
        )
    }

    /// Decides, at time `now` (milliseconds), whether a snapshot of `symbol` is due: it
    /// is when at least the interval has passed since the last one (the difference
    /// taken modulo 2^64). When it is due, `now` is recorded as the time of the last
    /// snapshot.
    pub fn should_send_snapshot_at(&mut self, symbol: &str, now: u64) -> (r: bool)
        ensures
            r == snapshot_due(old(self).last_time_of(symbol@), now, old(self).interval()),
            r ==> final(self).last_time_of(symbol@) == now,
            !r ==> final(self).last_time_of(symbol@) == old(self).last_time_of(symbol@),
            forall|s: Seq<char>| s != symbol@ ==> final(self).last_time_of(s) == old(self).last_time_of(s),
            forall|s: Seq<char>| final(self).previous(s) == old(self).previous(s)
                && final(self).sequence_of(s) == old(self).sequence_of(s),
            final(self).threshold() == old(self).threshold(),
            final(self).interval() == old(self).interval(),
            sequence_step(*old(self), *final(self), symbol@, false),
            time_step(*old(self), *final(self), symbol@, if r { Some(now) } else { None }),
    {
        let last_time = match self.last_snapshot_time.get(symbol) {
            Some(t) => *t,
            None => 0,
        };
        let elapsed = now.wrapping_sub(last_time);
        if elapsed >= self.snapshot_interval_ms {
            self.last_snapshot_time.insert(symbol.to_owned(), now);
            true
        } else {
            false
        }
    }

    /// Whether a snapshot of `symbol` is due now, by the wall clock (see
    /// `should_send_snapshot_at`): for the time `now` that was read, the answer is
    /// whether the interval has passed, and a true answer records `now`.
    pub fn should_send_snapshot(&mut self, symbol: &str) -> (r: bool)
        ensures
            exists|now: u64|
                r == #[trigger] snapshot_due(old(self).last_time_of(symbol@), now, old(self).interval())
                    && (r ==> final(self).last_time_of(symbol@) == now),
            forall|s: Seq<char>| s != symbol@ ==> final(self).last_time_of(s) == old(self).last_time_of(s),
            !r ==> final(self).last_time_of(symbol@) == old(self).last_time_of(symbol@),
            forall|s: Seq<char>| final(self).previous(s) == old(self).previous(s)
                && final(self).sequence_of(s) == old(self).sequence_of(s),
            final(self).threshold() == old(self).threshold(),
            final(self).interval() == old(self).interval(),
            sequence_step(*old(self), *final(self), symbol@, false),
            time_step(*old(self), *final(self), symbol@, if r { Some(final(self).last_time_of(symbol@)) } else { None }),
    {
        let now = unix_time_millis();
        self.should_send_snapshot_at(symbol, now)
    }

    /// A full snapshot of `symbol`: the sequence number goes up by one and the snapshot
    /// becomes the reference for later deltas.
    pub fn create_snapshot(&mut self, symbol: &str, current_snapshot: &EngineOrderBookSnapshot) -> (r:
        OrderBookSnapshot)
        requires
            old(self).sequence_of(symbol@) < u64::MAX,
        ensures
            r.symbol@ == symbol@,
            r.bids@ == current_snapshot.bids@,
            r.asks@ == current_snapshot.asks@,
            r.sequence == old(self).sequence_of(symbol@) + 1,
            final(self).sequence_of(symbol@) == old(self).sequence_of(symbol@) + 1,
            final(self).previous(symbol@) == Some((current_snapshot.bids@, current_snapshot.asks@)),
            forall|s: Seq<char>| s != symbol@ ==> final(self).previous(s) == old(self).previous(s)
                && final(self).sequence_of(s) == old(self).sequence_of(s),
            forall|s: Seq<char>| final(self).last_time_of(s) == old(self).last_time_of(s),
            final(self).threshold() == old(self).threshold(),
            final(self).interval() == old(self).interval(),
            sequence_step(*old(self), *final(self), symbol@, true),
            time_step(*old(self), *final(self), symbol@, None),
    {
        let key = symbol.to_owned();
        let sequence = match self.sequence_numbers.get(symbol) {
            Some(s) => *s + 1,
            None => 1,
        };
        self.sequence_numbers.insert(key.clone(), sequence);
        let bids = copy_levels(&current_snapshot.bids);
        let asks = copy_levels(&current_snapshot.asks);
        self.previous_snapshots.insert(key.clone(), (bids, asks));
        OrderBookSnapshot {
            symbol: key,
            bids: copy_levels(&current_snapshot.bids),
            asks: copy_levels(&current_snapshot.asks),
            timestamp: unix_time_millis(),
            sequence,
        }
    }

    /// The sequence number of `symbol` (0 before the first update).
    pub fn get_sequence(&self, symbol: &str) -> (r: u64)
        ensures
            r == self.sequence_of(symbol@),
    {
        match self.sequence_numbers.get(symbol) {
            Some(s) => *s,
            None => 0,
        }
    }

    /// The time of the last snapshot of `symbol` (0 before the first).
    pub fn get_last_snapshot_time(&self, symbol: &str) -> (r: u64)
        ensures
            r == self.last_time_of(symbol@),
    {
        match self.last_snapshot_time.get(symbol) {
            Some(t) => *t,
            None => 0,
        }
    }
}

/// The quantity at each price of a list of levels (the last level of a price wins).
pub open spec fn level_map(s: Seq<(u64, u64)>) -> Map<u64, u64>
    decreases s.len(),
{
    if s.len() == 0 { Map::empty() } else { level_map(s.drop_last()).insert(s.last().0, s.last().1) }
}

/// The levels after one change: an addition or update sets the price's quantity, a
/// removal drops the price.
pub open spec fn apply_change(m: Map<u64, u64>, c: OrderBookChange) -> Map<u64, u64> {
    match c.change_type {
        OrderBookChangeType::Remove => m.remove(c.price),
        _ => m.insert(c.price, c.quantity),
    }
}

/// The levels after the changes, applied in order.
pub open spec fn apply_changes(m: Map<u64, u64>, cs: Seq<OrderBookChange>) -> Map<u64, u64>
    decreases cs.len(),
{
    if cs.len() == 0 { m } else { apply_change(apply_changes(m, cs.drop_last()), cs.last()) }
}

proof fn lemma_level_map(s: Seq<(u64, u64)>, p: u64)
    ensures
        level_map(s).contains_key(p) <==> has_price(s, p),
        has_price(s, p) ==> level_map(s)[p] == last_qty(s, p),
    decreases s.len(),
{
    if s.len() > 0 {
        let t = s.drop_last();
        lemma_level_map(t, p);
        if has_price(t, p) {
            let i = choose|i: int| 0 <= i < t.len() && t[i].0 == p;
            assert(s[i].0 == p);
        }
        if has_price(s, p) && s.last().0 != p {
            let i = choose|i: int| 0 <= i < s.len() && s[i].0 == p;
            assert(t[i].0 == p);
        }
    }
}

proof fn lemma_apply_push_opt(m: Map<u64, u64>, s: Seq<OrderBookChange>, c: Option<OrderBookChange>)
    ensures
        apply_changes(m, push_opt(s, c)) == match c {
            Some(x) => apply_change(apply_changes(m, s), x),
            None => apply_changes(m, s),
        },
{
    match c {
        Some(x) => {
            assert(s.push(x).drop_last() =~= s);
        },
        None => {},
    }
}

proof fn lemma_apply_concat(m: Map<u64, u64>, a: Seq<OrderBookChange>, b: Seq<OrderBookChange>)
    ensures
        apply_changes(m, a + b) == apply_changes(apply_changes(m, a), b),
    decreases b.len(),
{
    if b.len() == 0 {
        assert(a + b =~= a);
    } else {
        lemma_apply_concat(m, a, b.drop_last());
        assert((a + b).drop_last() =~= a + b.drop_last());
        assert((a + b).last() == b.last());
    }
}

/// After the additions and updates for the first `k` levels of `cur`, the levels are
/// those of `prev` overridden by those first `k` levels.
proof fn lemma_changes_upto(prev: Seq<(u64, u64)>, cur: Seq<(u64, u64)>, k: int)
    requires
        0 <= k <= cur.len(),
    ensures
        apply_changes(level_map(prev), changes_upto(prev, cur, k)) == level_map(prev).union_prefer_right(
            level_map(cur.take(k)),
        ),
    decreases k,
{
    let pm = level_map(prev);
    if k == 0 {
        assert(level_map(cur.take(0)) =~= Map::<u64, u64>::empty());
        assert(pm.union_prefer_right(Map::<u64, u64>::empty()) =~= pm);
    } else {
        lemma_changes_upto(prev, cur, k - 1);
        let c = level_change(prev, cur, k - 1);
        lemma_apply_push_opt(pm, changes_upto(prev, cur, k - 1), c);
        let t = cur.take(k);
        assert(t.drop_last() =~= cur.take(k - 1));
        assert(t.last() == cur[k - 1]);
        let (p, q) = cur[k - 1];
        let cm = level_map(cur.take(k - 1));
        assert(level_map(t) == cm.insert(p, q));
        match c {
            Some(x) => {
                assert(x.price == p && x.quantity == q && x.change_type != OrderBookChangeType::Remove);
                assert(pm.union_prefer_right(cm).insert(p, q) =~= pm.union_prefer_right(cm.insert(p, q)));
            },
            None => {
                lemma_level_map(prev, p);
                lemma_level_map(cur.take(k - 1), p);
                assert(pm.union_prefer_right(cm)[p] == q);
                assert(pm.union_prefer_right(cm) =~= pm.union_prefer_right(cm.insert(p, q)));
            },
        }
    }
}

/// After the removals for the first `n` levels of `prev`, a price is kept when it was
/// there and is not one of those levels' prices missing from `cur`, with its quantity.
proof fn lemma_removals_upto(prev: Seq<(u64, u64)>, cur: Seq<(u64, u64)>, m: Map<u64, u64>, n: int)
    requires
        0 <= n <= prev.len(),
    ensures
        forall|key: u64| #[trigger] apply_changes(m, removals_upto(prev, cur, n)).contains_key(key) <==> (
            m.contains_key(key) && !(has_price(prev.take(n), key) && !has_price(cur, key))),
        forall|key: u64| #[trigger] apply_changes(m, removals_upto(prev, cur, n)).contains_key(key)
            ==> apply_changes(m, removals_upto(prev, cur, n))[key] == m[key],
    decreases n,
{
    if n > 0 {
        lemma_removals_upto(prev, cur, m, n - 1);
        let c = level_removal(prev, cur, n - 1);
        lemma_apply_push_opt(m, removals_upto(prev, cur, n - 1), c);
        let p = prev[n - 1].0;
        let t = prev.take(n);
        assert forall|key: u64| has_price(t, key) <==> (has_price(prev.take(n - 1), key) || key == p) by {
            if has_price(t, key) {
                let i = choose|i: int| 0 <= i < t.len() && t[i].0 == key;
                if i < n - 1 {
                    assert(prev.take(n - 1)[i].0 == key);
                }
            }
            let u = prev.take(n - 1);
            if has_price(u, key) {
                let i = choose|i: int| 0 <= i < u.len() && u[i].0 == key;
                assert(t[i].0 == key);
            }
            if key == p {
                assert(t[n - 1].0 == key);
            }
        }
    } else {
        assert forall|key: u64| !has_price(prev.take(0), key) by {}
    }
}

/// Whether the levels `s` hold a level at price `p` with quantity `q`.
pub open spec fn has_level(s: Seq<(u64, u64)>, p: u64, q: u64) -> bool {
    exists|k: int| 0 <= k < s.len() && s[k] == (p, q)
}

/// What a delta entry from the levels `prev` to the levels `cur` must be: an update
/// names a price that `prev` had, with the new quantity `cur` gives it, which differs
/// from the old one; an addition names a price that `prev` did not have, with its
/// quantity in `cur`; a removal names a price that `prev` had and `cur` has not, with
/// quantity 0.
pub open spec fn delta_entry_ok(prev: Seq<(u64, u64)>, cur: Seq<(u64, u64)>, c: OrderBookChange) -> bool {
    match c.change_type {
        OrderBookChangeType::Update => has_price(prev, c.price) && has_level(cur, c.price, c.quantity)
            && c.quantity != last_qty(prev, c.price),
        OrderBookChangeType::Add => !has_price(prev, c.price) && has_level(cur, c.price, c.quantity),
        OrderBookChangeType::Remove => has_price(prev, c.price) && !has_price(cur, c.price) && c.quantity == 0,
    }
}

proof fn lemma_changes_upto_ok(prev: Seq<(u64, u64)>, cur: Seq<(u64, u64)>, n: int)
    requires
        0 <= n <= cur.len(),
        forall|i: int, j: int| 0 <= i < j < cur.len() ==> cur[i].0 != cur[j].0,
    ensures
        forall|i: int| 0 <= i < changes_upto(prev, cur, n).len() ==> delta_entry_ok(prev, cur, #[trigger] changes_upto(prev, cur, n)[i]),
    decreases n,
{
    if n > 0 {
        lemma_changes_upto_ok(prev, cur, n - 1);
        let k = n - 1;
        let (p, q) = cur[k];
        if let Some(c) = level_change(prev, cur, k) {
            assert(cur[k] == (p, q));
            if !(has_price(prev, p) && !has_price(cur.take(k), p)) {
                if has_price(prev, p) {
                    let j = choose|j: int| 0 <= j < cur.take(k).len() && cur.take(k)[j].0 == p;
                    assert(cur.take(k)[j] == cur[j]);
                    assert(false);
                }
            }
            assert(delta_entry_ok(prev, cur, c));
        }
        let old = changes_upto(prev, cur, n - 1);
        assert forall|i: int| 0 <= i < changes_upto(prev, cur, n).len() implies delta_entry_ok(
            prev,
            cur,
            #[trigger] changes_upto(prev, cur, n)[i],
        ) by {
            if i < old.len() {
                assert(changes_upto(prev, cur, n)[i] == old[i]);
            }
        }
    }
}

proof fn lemma_removals_upto_ok(prev: Seq<(u64, u64)>, cur: Seq<(u64, u64)>, n: int)
    requires
        0 <= n <= prev.len(),
    ensures
        forall|i: int| 0 <= i < removals_upto(prev, cur, n).len() ==> delta_entry_ok(prev, cur, #[trigger] removals_upto(prev, cur, n)[i]),
    decreases n,
{
    if n > 0 {
        lemma_removals_upto_ok(prev, cur, n - 1);
        let k = n - 1;
        if let Some(c) = level_removal(prev, cur, k) {
            assert(prev[k].0 == c.price);
            assert(delta_entry_ok(prev, cur, c));
        }
        let old = removals_upto(prev, cur, n - 1);
        assert forall|i: int| 0 <= i < removals_upto(prev, cur, n).len() implies delta_entry_ok(
            prev,
            cur,
            #[trigger] removals_upto(prev, cur, n)[i],
        ) by {
            if i < old.len() {
                assert(removals_upto(prev, cur, n)[i] == old[i]);
            }
        }
    }
}

/// The kind of every delta entry matches the levels: for a current side whose prices
/// are distinct (as a book's are), an entry is an update exactly when its price was a
/// level before (with a changed quantity), an addition exactly when it was not, and a
/// removal when the price is gone (see `delta_entry_ok`).
pub proof fn law_delta_kinds(prev: Seq<(u64, u64)>, cur: Seq<(u64, u64)>)
    requires
        forall|i: int, j: int| 0 <= i < j < cur.len() ==> cur[i].0 != cur[j].0,
    ensures
        forall|i: int| 0 <= i < level_changes(prev, cur).len() ==> delta_entry_ok(prev, cur, #[trigger] level_changes(prev, cur)[i]),
{
    lemma_changes_upto_ok(prev, cur, cur.len() as int);
    lemma_removals_upto_ok(prev, cur, prev.len() as int);
    let a = changes_upto(prev, cur, cur.len() as int);
    let b = removals_upto(prev, cur, prev.len() as int);
    assert forall|i: int| 0 <= i < level_changes(prev, cur).len() implies delta_entry_ok(prev, cur, #[trigger] level_changes(prev, cur)[i]) by {
        if i < a.len() {
            assert(level_changes(prev, cur)[i] == a[i]);
        } else {
            assert(level_changes(prev, cur)[i] == b[i - a.len()]);
        }
    }
}

/// Applying a delta to the levels it was computed from gives the new levels: the
/// additions, updates and removals that `level_changes` finds between two lists of
/// levels turn the quantities at each price of the first into those of the second.
pub proof fn law_delta_rebuilds_levels(prev: Seq<(u64, u64)>, cur: Seq<(u64, u64)>)
    ensures
        apply_changes(level_map(prev), level_changes(prev, cur)) == level_map(cur),
{
    let pm = level_map(prev);
    let a = changes_upto(prev, cur, cur.len() as int);
    let b = removals_upto(prev, cur, prev.len() as int);
    lemma_apply_concat(pm, a, b);
    lemma_changes_upto(prev, cur, cur.len() as int);
    assert(cur.take(cur.len() as int) =~= cur);
    let mm = pm.union_prefer_right(level_map(cur));
    lemma_removals_upto(prev, cur, mm, prev.len() as int);
    assert(prev.take(prev.len() as int) =~= prev);
    let r = apply_changes(mm, b);
    assert forall|key: u64| r.contains_key(key) <==> level_map(cur).contains_key(key) by {
        lemma_level_map(prev, key);
        lemma_level_map(cur, key);
    }
    assert forall|key: u64| r.contains_key(key) implies r[key] == level_map(cur)[key] by {
        lemma_level_map(cur, key);
    }
    assert(r =~= level_map(cur));
}

} // verus!
