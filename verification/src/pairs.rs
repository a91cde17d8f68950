//! Lists of keyed values, read as maps in which a later entry replaces an
//! earlier one.

use crate::text;
use vstd::prelude::*;

verus! {

/// The map that a list of entries stands for: of two entries with one key the
/// later counts.
pub open spec fn pairs_map<V>(pairs: Seq<(Seq<char>, V)>) -> Map<Seq<char>, V>
    decreases pairs.len(),
{
    if pairs.len() == 0 {
        Map::empty()
    } else {
        pairs_map(pairs.drop_last()).insert(pairs.last().0, pairs.last().1)
    }
}

/// No key occurs twice.
pub open spec fn distinct_keys<V>(pairs: Seq<(Seq<char>, V)>) -> bool {
    forall|i: int, j: int|
        #![trigger pairs[i], pairs[j]]
        0 <= i < j < pairs.len() ==> pairs[i].0 != pairs[j].0
}

/// The map has a key exactly where the list has an entry with it, and gives it
/// the value of the last such entry.
pub proof fn lemma_pairs_map<V>(pairs: Seq<(Seq<char>, V)>, key: Seq<char>)
    ensures
        match pairs_map(pairs).get(key) {
            Some(value) => exists|i: int|
                #![trigger pairs[i]]
                0 <= i < pairs.len() && pairs[i] == (key, value) && (forall|j: int|
                    #![trigger pairs[j]]
                    i < j < pairs.len() ==> pairs[j].0 != key),
            None => forall|i: int|
                #![trigger pairs[i]]
                0 <= i < pairs.len() ==> pairs[i].0 != key,
        },
    decreases pairs.len(),
{
    if pairs.len() > 0 {
        let rest = pairs.drop_last();
        let last = pairs.last();
        lemma_pairs_map(rest, key);
        if last.0 == key {
            assert(pairs[pairs.len() - 1] == (key, last.1));
        } else {
            assert(pairs_map(pairs).get(key) == pairs_map(rest).get(key));
            match pairs_map(rest).get(key) {
                Some(value) => {
                    let i = choose|i: int|
                        #![trigger rest[i]]
                        0 <= i < rest.len() && rest[i] == (key, value) && (forall|j: int|
                            #![trigger rest[j]]
                            i < j < rest.len() ==> rest[j].0 != key);
                    assert(pairs[i] == rest[i]);
                    assert forall|j: int| #![trigger pairs[j]] i < j < pairs.len() implies pairs[j].0
                        != key by {
                        if j < rest.len() {
                            assert(rest[j] == pairs[j]);
                        }
                    }
                },
                None => {
                    assert forall|j: int| #![trigger pairs[j]] 0 <= j < pairs.len() implies pairs[j].0
                        != key by {
                        if j < rest.len() {
                            assert(rest[j] == pairs[j]);
                        }
                    }
                },
            }
        }
    }
}

/// Where no key occurs twice, the map gives each its only value.
proof fn lemma_only_entry<V>(pairs: Seq<(Seq<char>, V)>, at: int)
    requires
        distinct_keys(pairs),
        0 <= at < pairs.len(),
    ensures
        pairs_map(pairs).get(pairs[at].0) == Some(pairs[at].1),
{
    let key = pairs[at].0;
    lemma_pairs_map(pairs, key);
    let value = pairs_map(pairs).get(key)->0;
    let i = choose|i: int|
        #![trigger pairs[i]]
        0 <= i < pairs.len() && pairs[i] == (key, value) && (forall|j: int|
            #![trigger pairs[j]]
            i < j < pairs.len() ==> pairs[j].0 != key);
    assert(pairs[i].0 == pairs[at].0);
    assert(i == at);
}

/// Replacing the entry with a key replaces what the map gives the key.
proof fn lemma_replaced<V>(pairs: Seq<(Seq<char>, V)>, at: int, value: V)
    requires
        distinct_keys(pairs),
        0 <= at < pairs.len(),
    ensures
        pairs_map(pairs.update(at, (pairs[at].0, value))) == pairs_map(pairs).insert(
            pairs[at].0,
            value,
        ),
        distinct_keys(pairs.update(at, (pairs[at].0, value))),
{
    let key = pairs[at].0;
    let now = pairs.update(at, (key, value));
    assert forall|i: int| #![trigger now[i]] 0 <= i < now.len() implies now[i].0 == pairs[i].0
        && (i != at ==> now[i] == pairs[i]) by {}
    let found = pairs_map(now);
    let wanted = pairs_map(pairs).insert(key, value);
    assert forall|k: Seq<char>| found.get(k) == wanted.get(k) by {
        lemma_pairs_map(now, k);
        lemma_pairs_map(pairs, k);
        match found.get(k) {
            Some(v) => {
                let i = choose|i: int|
                    #![trigger now[i]]
                    0 <= i < now.len() && now[i] == (k, v) && (forall|j: int|
                        #![trigger now[j]]
                        i < j < now.len() ==> now[j].0 != k);
                lemma_only_entry(pairs, i);
                if i != at {
                    assert(pairs[i].0 != pairs[at].0);
                }
            },
            None => {
                assert(now[at].0 == key);
                if pairs_map(pairs).get(k) is Some {
                    let v = pairs_map(pairs).get(k)->0;
                    let i = choose|i: int|
                        #![trigger pairs[i]]
                        0 <= i < pairs.len() && pairs[i] == (k, v) && (forall|j: int|
                            #![trigger pairs[j]]
                            i < j < pairs.len() ==> pairs[j].0 != k);
                    assert(now[i].0 == k);
                }
            },
        }
    }
    assert forall|k: Seq<char>|
        #![trigger found.contains_key(k)]
        #![trigger wanted.contains_key(k)]
        found.contains_key(k) == wanted.contains_key(k) && (found.contains_key(k) ==> found[k]
            == wanted[k]) by {
        assert(found.get(k) == wanted.get(k));
    }
    assert(found =~= wanted);
}

/// Gives a key a value, in place of the one that it had.
pub fn put<V: DeepView>(pairs: &mut Vec<(String, V)>, key: String, value: V)
    requires
        distinct_keys(old(pairs).deep_view()),
    ensures
        pairs_map(final(pairs).deep_view()) == pairs_map(old(pairs).deep_view()).insert(
            key@,
            value.deep_view(),
        ),
        distinct_keys(final(pairs).deep_view()),
{
    let ghost before = pairs.deep_view();
    let mut i: usize = 0;
    while i < pairs.len()
        invariant
            i <= pairs@.len(),
            pairs.deep_view() == before,
            before == old(pairs).deep_view(),
            distinct_keys(before),
            forall|j: int| #![trigger before[j]] 0 <= j < i ==> before[j].0 != key@,
        decreases pairs@.len() - i,
    {
        assert(before[i as int].0 == pairs@[i as int].0@);
        if text::same_text(pairs[i].0.as_str(), key.as_str()) {
            pairs[i] = (key, value);
            proof {
                lemma_replaced(before, i as int, value.deep_view());
                assert(pairs.deep_view() =~= before.update(i as int, (key@, value.deep_view())));
            }
            return;
        }
        i = i + 1;
    }
    pairs.push((key, value));
    proof {
        let now = pairs.deep_view();
        assert(now =~= before.push((key@, value.deep_view())));
        assert(now.drop_last() =~= before);
        assert forall|a: int, b: int|
            #![trigger now[a], now[b]]
            0 <= a < b < now.len() implies now[a].0 != now[b].0 by {
            assert(now[a] == before[a]);
            if b < before.len() {
                assert(now[b] == before[b]);
            }
        }
    }
}

/// The value that a list of entries gives a key.
pub fn lookup<'a>(pairs: &'a Vec<(String, String)>, key: &str) -> (r: Option<&'a String>)
    ensures
        match r {
            Some(value) => pairs_map(pairs.deep_view()).get(key@) == Some(value@),
            None => pairs_map(pairs.deep_view()).get(key@) is None,
        },
{
    let mut i: usize = pairs.len();
    proof {
        lemma_pairs_map(pairs.deep_view(), key@);
    }
    while i > 0
        invariant
            i <= pairs@.len(),
            forall|j: int|
                #![trigger pairs.deep_view()[j]]
                i <= j < pairs@.len() ==> pairs.deep_view()[j].0 != key@,
        decreases i,
    {
        i = i - 1;
        let entry = &pairs[i];
        assert(pairs.deep_view()[i as int] == (entry.0@, entry.1@));
        if text::same_text(entry.0.as_str(), key) {
            proof {
                lemma_pairs_map(pairs.deep_view(), key@);
            }
            return Some(&entry.1);
        }
    }
    None
}

} // verus!
