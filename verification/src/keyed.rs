//! Entries keyed by text, kept in a vector with no key twice: the map they stand for,
//! and the lookup, update, insertion and removal of one key.

use vstd::prelude::*;
use crate::keys::{distinct, first_pos, lemma_first_pos, lemma_first_pos_at};

verus! {

/// The keys of the entries, in order.
pub open spec fn entry_keys<V>(s: Seq<(String, V)>) -> Seq<Seq<char>> {
    s.map_values(|e: (String, V)| e.0@)
}

/// The map the entries stand for: each key to its value (a later entry wins, which
/// never matters when no key occurs twice).
pub open spec fn map_of<V>(s: Seq<(String, V)>) -> Map<Seq<char>, V>
    decreases s.len(),
{
    if s.len() == 0 { Map::empty() } else { map_of(s.drop_last()).insert(s.last().0@, s.last().1) }
}

/// The key of each entry is in the map, and nothing else.
pub proof fn lemma_map_of_dom<V>(s: Seq<(String, V)>, k: Seq<char>)
    ensures
        map_of(s).contains_key(k) <==> entry_keys(s).contains(k),
    decreases s.len(),
{
    if s.len() > 0 {
        lemma_map_of_dom(s.drop_last(), k);
        let ks = entry_keys(s);
        assert(entry_keys(s.drop_last()) =~= ks.drop_last());
        assert(ks[s.len() - 1] == s.last().0@);
        if entry_keys(s.drop_last()).contains(k) {
            let i = choose|i: int| 0 <= i < entry_keys(s.drop_last()).len() && entry_keys(s.drop_last())[i] == k;
            assert(ks[i] == k);
        }
        if ks.contains(k) {
            let i = choose|i: int| 0 <= i < ks.len() && ks[i] == k;
            if i < s.len() - 1 {
                assert(entry_keys(s.drop_last())[i] == k);
            }
        }
    }
}

/// With no key twice, the map gives each key the value of its entry.
pub proof fn lemma_map_of_at<V>(s: Seq<(String, V)>, i: int)
    requires
        distinct(entry_keys(s)),
        0 <= i < s.len(),
    ensures
        map_of(s).contains_key(s[i].0@),
        map_of(s)[s[i].0@] == s[i].1,
    decreases s.len(),
{
    if i < s.len() - 1 {
        let t = s.drop_last();
        assert(entry_keys(t) =~= entry_keys(s).drop_last());
        lemma_map_of_at(t, i);
        assert(entry_keys(s)[i] != entry_keys(s)[s.len() - 1]);
    }
}

/// Replacing the value of an entry replaces it in the map.
pub proof fn lemma_map_of_update<V>(s: Seq<(String, V)>, i: int, v: V)
    requires
        distinct(entry_keys(s)),
        0 <= i < s.len(),
    ensures
        map_of(s.update(i, (s[i].0, v))) == map_of(s).insert(s[i].0@, v),
    decreases s.len(),
{
    let u = s.update(i, (s[i].0, v));
    if i == s.len() - 1 {
        assert(u.drop_last() =~= s.drop_last());
        assert(map_of(u) =~= map_of(s).insert(s[i].0@, v));
    } else {
        let t = s.drop_last();
        assert(entry_keys(t) =~= entry_keys(s).drop_last());
        lemma_map_of_update(t, i, v);
        assert(u.drop_last() =~= t.update(i, (t[i].0, v)));
        assert(entry_keys(s)[i] != entry_keys(s)[s.len() - 1]);
        assert(map_of(u) =~= map_of(s).insert(s[i].0@, v));
    }
}

/// Removing an entry removes its key from the map.
pub proof fn lemma_map_of_remove<V>(s: Seq<(String, V)>, i: int)
    requires
        distinct(entry_keys(s)),
        0 <= i < s.len(),
    ensures
        map_of(s.remove(i)) == map_of(s).remove(s[i].0@),
        distinct(entry_keys(s.remove(i))),
    decreases s.len(),
{
    let r = s.remove(i);
    assert(entry_keys(r) =~= entry_keys(s).remove(i));
    if i == s.len() - 1 {
        assert(r =~= s.drop_last());
        lemma_map_of_dom(s.drop_last(), s[i].0@);
        assert(!entry_keys(s.drop_last()).contains(s[i].0@)) by {
            if entry_keys(s.drop_last()).contains(s[i].0@) {
                let j = choose|j: int| 0 <= j < entry_keys(s.drop_last()).len() && entry_keys(s.drop_last())[j] == s[i].0@;
                assert(entry_keys(s)[j] == entry_keys(s)[i]);
            }
        }
        assert(map_of(r) =~= map_of(s).remove(s[i].0@));
    } else {
        let t = s.drop_last();
        assert(entry_keys(t) =~= entry_keys(s).drop_last());
        lemma_map_of_remove(t, i);
        assert(r.drop_last() =~= t.remove(i));
        assert(r.last() == s.last());
        assert(entry_keys(s)[i] != entry_keys(s)[s.len() - 1]);
        assert(map_of(r) =~= map_of(s).remove(s[i].0@));
    }
}

/// Adding an entry with a new key adds the key to the map and keeps the keys apart.
pub proof fn lemma_map_of_push<V>(s: Seq<(String, V)>, e: (String, V))
    requires
        distinct(entry_keys(s)),
        !entry_keys(s).contains(e.0@),
    ensures
        map_of(s.push(e)) == map_of(s).insert(e.0@, e.1),
        distinct(entry_keys(s.push(e))),
{
    let t = s.push(e);
    assert(t.drop_last() =~= s);
    let ks = entry_keys(t);
    assert(ks =~= entry_keys(s).push(e.0@));
    assert forall|a: int, b: int| 0 <= a < b < ks.len() implies ks[a] != ks[b] by {
        if b == ks.len() - 1 {
            assert(entry_keys(s)[a] == ks[a]);
        }
    }
}

/// The position of the entry of `key`, or the number of entries when there is none.
pub fn find_entry<V>(entries: &Vec<(String, V)>, key: &str) -> (r: usize)
    ensures
        r == first_pos(entry_keys(entries@), key@),
        r <= entries@.len(),
        r < entries@.len() ==> entries@[r as int].0@ == key@,
        r == entries@.len() ==> !entry_keys(entries@).contains(key@),
{
    let ghost ks = entry_keys(entries@);
    proof {
        lemma_first_pos(ks, key@);
    }
    let k = String::from_str(key);
    let mut i: usize = 0;
    while i < entries.len()
        invariant
            ks == entry_keys(entries@),
            k@ == key@,
            i <= entries@.len(),
            forall|j: int| 0 <= j < i ==> ks[j] != key@,
        decreases entries@.len() - i,
    {
        if entries[i].0 == k {
            proof {
                lemma_first_pos_at(ks, key@, i as int);
            }
            return i;
        }
        i = i + 1;
    }
    proof {
        lemma_first_pos_at(ks, key@, i as int);
        if ks.contains(key@) {
            let j = choose|j: int| 0 <= j < ks.len() && ks[j] == key@;
            assert(ks[j] != key@);
        }
    }
    i
}

/// Sets `key` to `v`, adding the key when it is new.
pub fn put_entry<V>(entries: &mut Vec<(String, V)>, key: &str, v: V)
    requires
        distinct(entry_keys(old(entries)@)),
    ensures
        distinct(entry_keys(final(entries)@)),
        map_of(final(entries)@) == map_of(old(entries)@).insert(key@, v),
{
    let i = find_entry(entries, key);
    if i < entries.len() {
        let ghost before = entries@;
        let (k, _old) = entries.remove(i);
        entries.insert(i, (k, v));
        proof {
            assert(entries@ =~= before.update(i as int, (before[i as int].0, v)));
            lemma_map_of_update(before, i as int, v);
            assert(entry_keys(entries@) =~= entry_keys(before));
        }
    } else {
        let ghost before = entries@;
        let e = (String::from_str(key), v);
        entries.push(e);
        proof {
            lemma_map_of_push(before, e);
        }
    }
}

/// Removes the entry of `key`, if there is one.
pub fn remove_entry<V>(entries: &mut Vec<(String, V)>, key: &str)
    requires
        distinct(entry_keys(old(entries)@)),
    ensures
        distinct(entry_keys(final(entries)@)),
        map_of(final(entries)@) == map_of(old(entries)@).remove(key@),
{
    let i = find_entry(entries, key);
    let ghost before = entries@;
    if i < entries.len() {
        let _gone = entries.remove(i);
        proof {
            lemma_map_of_remove(before, i as int);
        }
    } else {
        proof {
            lemma_map_of_dom(before, key@);
            assert(map_of(before).remove(key@) =~= map_of(before));
        }
    }
}

} // verus!
