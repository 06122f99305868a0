//! Routing keys of the notification exchange and the wildcard patterns that consumers
//! subscribe with.

use vstd::prelude::*;
use crate::text::{join3, chars_of, has_prefix, has_suffix, starts_with, ends_with};

verus! {

/// Routing key patterns.
pub struct RoutingPatterns;

impl RoutingPatterns {
    /// Executions of one symbol: "execution.<symbol>".
    pub fn execution_symbol(symbol: &str) -> (r: String)
        ensures
            r@ == "execution."@ + symbol@,
    {
        let r = join3("execution.", symbol, "");
        proof {
            reveal_strlit("");
            assert(r@ =~= "execution."@ + symbol@);
        }
        r
    }

    /// Order book updates of one symbol: "orderbook.*.<symbol>".
    pub fn orderbook_symbol(symbol: &str) -> (r: String)
        ensures
            r@ == "orderbook.*."@ + symbol@,
    {
        let r = join3("orderbook.*.", symbol, "");
        proof {
            reveal_strlit("");
            assert(r@ =~= "orderbook.*."@ + symbol@);
        }
        r
    }

    /// Market statistics of one symbol: "market.stats.<symbol>".
    pub fn market_stats_symbol(symbol: &str) -> (r: String)
        ensures
            r@ == "market.stats."@ + symbol@,
    {
        let r = join3("market.stats.", symbol, "");
        proof {
            reveal_strlit("");
            assert(r@ =~= "market.stats."@ + symbol@);
        }
        r
    }

    /// Candles of one symbol: "candlestick.<symbol>".
    pub fn candlestick_symbol(symbol: &str) -> (r: String)
        ensures
            r@ == "candlestick."@ + symbol@,
    {
        let r = join3("candlestick.", symbol, "");
        proof {
            reveal_strlit("");
            assert(r@ =~= "candlestick."@ + symbol@);
        }
        r
    }

    /// Everything for one user: "user.<user_id>.*".
    pub fn user_pattern(user_id: &str) -> (r: String)
        ensures
            r@ == "user."@ + user_id@ + ".*"@,
    {
        join3("user.", user_id, ".*")
    }

    /// Everything for one symbol: "symbol.<symbol>.*".
    pub fn symbol_pattern(symbol: &str) -> (r: String)
        ensures
            r@ == "symbol."@ + symbol@ + ".*"@,
    {
        join3("symbol.", symbol, ".*")
    }
}

/// Position of the first '*' in `p`, or `p.len()`.
pub open spec fn star_pos(p: Seq<char>) -> int
    decreases p.len(),
{
    if p.len() == 0 {
        0
    } else if p[0] == '*' {
        0
    } else {
        1 + star_pos(p.drop_first())
    }
}

/// Whether `p` holds a '*'.
pub open spec fn has_star(p: Seq<char>) -> bool {
    exists|i: int| 0 <= i < p.len() && p[i] == '*'
}

/// Whether `routing_key` matches `pattern`: "*" matches every key; a pattern with
/// exactly one '*' matches the keys that start with what precedes it and end with
/// what follows it; any other pattern matches itself only.
pub open spec fn pattern_matches(pattern: Seq<char>, key: Seq<char>) -> bool {
    if pattern == seq!['*'] {
        true
    } else if has_star(pattern) && !has_star(pattern.skip(star_pos(pattern) + 1)) {
        let i = star_pos(pattern);
        starts_with(key, pattern.take(i)) && ends_with(key, pattern.skip(i + 1))
    } else {
        pattern == key
    }
}

proof fn lemma_star_pos(p: Seq<char>)
    ensures
        0 <= star_pos(p) <= p.len(),
        star_pos(p) < p.len() ==> p[star_pos(p)] == '*',
        forall|j: int| 0 <= j < star_pos(p) ==> p[j] != '*',
    decreases p.len(),
{
    if p.len() > 0 && p[0] != '*' {
        lemma_star_pos(p.drop_first());
        assert forall|j: int| 0 <= j < star_pos(p) implies p[j] != '*' by {
            if j > 0 {
                assert(p[j] == p.drop_first()[j - 1]);
            }
        }
    }
}

fn find_star(p: &Vec<char>, from: usize) -> (r: usize)
    requires
        from <= p@.len(),
    ensures
        from <= r <= p@.len(),
        r < p@.len() ==> p@[r as int] == '*',
        forall|j: int| from <= j < r ==> p@[j] != '*',
{
    let mut i = from;
    while i < p.len()
        invariant
            from <= i <= p@.len(),
            forall|j: int| from <= j < i ==> p@[j] != '*',
        decreases p@.len() - i,
    {
        if p[i] == '*' {
            return i;
        }
        i = i + 1;
    }
    i
}

fn slice_chars(p: &Vec<char>, from: usize, to: usize) -> (r: Vec<char>)
    requires
        from <= to <= p@.len(),
    ensures
        r@ == p@.subrange(from as int, to as int),
{
    let mut out: Vec<char> = Vec::new();
    let mut i = from;
    while i < to
        invariant
            from <= i <= to,
            to <= p@.len(),
            out@ == p@.subrange(from as int, i as int),
        decreases to - i,
    {
        out.push(p[i]);
        proof {
            assert(p@.subrange(from as int, i + 1) =~= p@.subrange(from as int, i as int).push(p@[i as int]));
        }
        i = i + 1;
    }
    out
}

fn same_chars(a: &Vec<char>, b: &Vec<char>) -> (r: bool)
    ensures
        r == (a@ == b@),
{
    if a.len() != b.len() {
        return false;
    }
    let mut i: usize = 0;
    while i < a.len()
        invariant
            a@.len() == b@.len(),
            i <= a@.len(),
            forall|j: int| 0 <= j < i ==> a@[j] == b@[j],
        decreases a@.len() - i,
    {
        if a[i] != b[i] {
            return false;
        }
        i = i + 1;
    }
    proof {
        assert(a@ =~= b@);
    }
    true
}

/// Whether `routing_key` matches `pattern` (see `pattern_matches`).
pub fn matches_pattern(pattern: &str, routing_key: &str) -> (r: bool)
    ensures
        r == pattern_matches(pattern@, routing_key@),
{
    let p = chars_of(pattern);
    let k = chars_of(routing_key);
    if p.len() == 1 && p[0] == '*' {
        proof {
            assert(p@ =~= seq!['*']);
        }
        return true;
    }
    proof {
        lemma_star_pos(p@);
        if p@ == seq!['*'] {
            assert(p@.len() == 1 && p@[0] == '*');
        }
    }
    let i = find_star(&p, 0);
    proof {
        if i < p@.len() {
            assert(star_pos(p@) == i) by {
                if star_pos(p@) < i {
                    assert(p@[star_pos(p@)] == '*');
                } else if star_pos(p@) > i {
                    assert(p@[i as int] != '*');
                }
            }
        } else {
            assert(!has_star(p@));
        }
    }
    if i < p.len() {
        let j = find_star(&p, i + 1);
        let ghost rest = p@.skip(i + 1);
        proof {
            if j < p@.len() {
                assert(rest[j - i - 1] == '*');
            } else {
                assert forall|x: int| 0 <= x < rest.len() implies rest[x] != '*' by {
                    assert(rest[x] == p@[x + i + 1]);
                }
            }
        }
        if j == p.len() {
            let prefix = slice_chars(&p, 0, i);
            let suffix = slice_chars(&p, i + 1, p.len());
            proof {
                assert(prefix@ =~= p@.take(i as int));
                assert(suffix@ =~= p@.skip(i + 1));
            }
            return has_prefix(&k, &prefix) && has_suffix(&k, &suffix);
        }
    }
    same_chars(&p, &k)
}

/// Whether `routing_key` matches one of `patterns`.
pub fn matches_routing_patterns(patterns: &Vec<String>, routing_key: &str) -> (r: bool)
    ensures
        r == exists|i: int| 0 <= i < patterns@.len() && pattern_matches(patterns@[i]@, routing_key@),
{
    let mut i: usize = 0;
    while i < patterns.len()
        invariant
            i <= patterns@.len(),
            forall|j: int| 0 <= j < i ==> !pattern_matches(patterns@[j]@, routing_key@),
        decreases patterns@.len() - i,
    {
        if matches_pattern(patterns[i].as_str(), routing_key) {
            return true;
        }
        i = i + 1;
    }
    false
}

} // verus!
