//! Tables: lists of keys with their values, in the order in which the keys first came.

use vstd::prelude::*;

use crate::text;

verus! {

/// The place of a key, or the number of entries where there is none.
pub open spec fn place<K, V>(entries: Seq<(K, V)>, key: K) -> nat
    decreases entries.len(),
{
    if entries.len() == 0 || entries[0].0 == key {
        0
    } else {
        1 + place(entries.skip(1), key)
    }
}

pub open spec fn lookup<K, V>(entries: Seq<(K, V)>, key: K) -> Option<V> {
    let i = place(entries, key);
    if i < entries.len() {
        Some(entries[i as int].1)
    } else {
        None
    }
}

/// Storing under a key keeps its place, or appends it.
pub open spec fn store<K, V>(entries: Seq<(K, V)>, key: K, value: V) -> Seq<(K, V)> {
    let i = place(entries, key);
    if i < entries.len() {
        entries.update(i as int, (key, value))
    } else {
        entries.push((key, value))
    }
}

/// The table without the first entry of a key.
pub open spec fn without<K, V>(entries: Seq<(K, V)>, key: K) -> Seq<(K, V)> {
    let i = place(entries, key);
    if i < entries.len() {
        entries.remove(i as int)
    } else {
        entries
    }
}

/// No key occurs twice.
pub open spec fn distinct<K, V>(entries: Seq<(K, V)>) -> bool {
    forall|i: int, j: int|
        0 <= i < j < entries.len() ==> (#[trigger] entries[i]).0 != (#[trigger] entries[j]).0
}

/// `place` is the first index whose key is the one looked for.
pub proof fn lemma_place<K, V>(entries: Seq<(K, V)>, key: K)
    ensures
        place(entries, key) <= entries.len(),
        place(entries, key) < entries.len() ==> entries[place(entries, key) as int].0 == key,
        forall|i: int| 0 <= i < place(entries, key) ==> (#[trigger] entries[i]).0 != key,
    decreases entries.len(),
{
    if entries.len() > 0 && entries[0].0 != key {
        lemma_place(entries.skip(1), key);
        let n = place(entries.skip(1), key);
        assert forall|i: int| 0 <= i < n + 1 implies (#[trigger] entries[i]).0 != key by {
            if i > 0 {
                assert(entries.skip(1)[i - 1] == entries[i]);
            }
        }
        if n < entries.skip(1).len() {
            assert(entries.skip(1)[n as int] == entries[n as int + 1]);
        }
    }
}

/// Where the keys before an index differ and the one at the index agrees, that is the place.
pub proof fn lemma_place_is<K, V>(entries: Seq<(K, V)>, key: K, i: int)
    requires
        0 <= i <= entries.len(),
        forall|j: int| 0 <= j < i ==> (#[trigger] entries[j]).0 != key,
        i < entries.len() ==> entries[i].0 == key,
    ensures
        place(entries, key) == i,
{
    lemma_place(entries, key);
    let p = place(entries, key) as int;
    if p < i {
        assert(entries[p].0 != key);
    } else if i < p {
        assert(entries[i].0 != key);
    }
}

/// What is stored is found again, no other key is touched, and no key comes to occur twice.
pub proof fn store_then_lookup<K, V>(entries: Seq<(K, V)>, key: K, value: V, other: K)
    ensures
        lookup(store(entries, key, value), key) == Some(value),
        other != key ==> lookup(store(entries, key, value), other) == lookup(entries, other),
        distinct(entries) ==> distinct(store(entries, key, value)),
{
    lemma_place(entries, key);
    let after = store(entries, key, value);
    let i = place(entries, key) as int;
    assert forall|j: int| 0 <= j < i implies (#[trigger] after[j]).0 != key by {
        assert(entries[j].0 != key);
    }
    lemma_place_is(after, key, i);
    if other != key {
        lemma_place(entries, other);
        let k = place(entries, other) as int;
        if k < entries.len() {
            assert forall|j: int| 0 <= j < k implies (#[trigger] after[j]).0 != other by {
                assert(entries[j].0 != other);
            }
            lemma_place_is(after, other, k);
        } else {
            assert forall|j: int| 0 <= j < after.len() implies (#[trigger] after[j]).0
                != other by {
                if j < entries.len() {
                    assert(entries[j].0 != other);
                }
            }
            lemma_place_is(after, other, after.len() as int);
        }
    }
    if distinct(entries) {
        assert forall|a: int, b: int| 0 <= a < b < after.len() implies (#[trigger] after[a]).0
            != (#[trigger] after[b]).0 by {
            if b < entries.len() {
                assert(entries[a].0 != entries[b].0);
                assert(after[a].0 == entries[a].0);
                assert(after[b].0 == entries[b].0);
            } else {
                assert(entries[a].0 != key);
            }
        }
    }
}

// Tables by name.

/// A table by name, as its keys and values are seen.
pub open spec fn named<V: View>(entries: Seq<(String, V)>) -> Seq<(Seq<char>, V::V)> {
    entries.map_values(|e: (String, V)| (e.0@, e.1@))
}

pub fn find_name<V: View>(entries: &Vec<(String, V)>, name: &str) -> (r: usize)
    ensures
        r == place(named(entries@), name@),
        r <= entries.len(),
{
    let mut i: usize = 0;
    while i < entries.len()
        invariant
            i <= entries.len(),
            forall|j: int| 0 <= j < i ==> (#[trigger] named(entries@)[j]).0 != name@,
        decreases entries.len() - i,
    {
        if text::same(entries[i].0.as_str(), name) {
            proof {
                lemma_place_is(named(entries@), name@, i as int);
            }
            return i;
        }
        i += 1;
    }
    proof {
        lemma_place_is(named(entries@), name@, i as int);
    }
    i
}

pub open spec fn seen<V: View>(r: Option<&V>) -> Option<V::V> {
    match r {
        Some(v) => Some(v@),
        None => None,
    }
}

pub fn get_named<'a, V: View>(entries: &'a Vec<(String, V)>, name: &str) -> (r: Option<&'a V>)
    ensures
        seen(r) == lookup(named(entries@), name@),
{
    let i = find_name(entries, name);
    if i < entries.len() {
        Some(&entries[i].1)
    } else {
        None
    }
}

pub fn put_named<V: View>(entries: &mut Vec<(String, V)>, name: &str, value: V)
    ensures
        named(final(entries)@) == store(named(old(entries)@), name@, value@),
{
    let i = find_name(entries, name);
    if i < entries.len() {
        entries.set(i, (name.to_owned(), value));
    } else {
        entries.push((name.to_owned(), value));
    }
    assert(named(entries@) =~= store(named(old(entries)@), name@, value@));
}

/// Takes the entry of a name out; says whether there was one.
pub fn remove_named<V: View>(entries: &mut Vec<(String, V)>, name: &str) -> (r: bool)
    ensures
        named(final(entries)@) == without(named(old(entries)@), name@),
        r == (lookup(named(old(entries)@), name@) is Some),
{
    let i = find_name(entries, name);
    if i < entries.len() {
        let _ = entries.remove(i);
        assert(named(entries@) =~= without(named(old(entries)@), name@));
        true
    } else {
        false
    }
}

// Tables by number.

pub fn find_id<V>(entries: &Vec<(u32, V)>, id: u32) -> (r: usize)
    ensures
        r == place(entries@, id),
        r <= entries.len(),
{
    let mut i: usize = 0;
    while i < entries.len()
        invariant
            i <= entries.len(),
            forall|j: int| 0 <= j < i ==> (#[trigger] entries@[j]).0 != id,
        decreases entries.len() - i,
    {
        if entries[i].0 == id {
            proof {
                lemma_place_is(entries@, id, i as int);
            }
            return i;
        }
        i += 1;
    }
    proof {
        lemma_place_is(entries@, id, i as int);
    }
    i
}

pub fn get_id<V: Copy>(entries: &Vec<(u32, V)>, id: u32) -> (r: Option<V>)
    ensures
        r == lookup(entries@, id),
{
    let i = find_id(entries, id);
    if i < entries.len() {
        Some(entries[i].1)
    } else {
        None
    }
}

pub fn put_id<V>(entries: &mut Vec<(u32, V)>, id: u32, value: V)
    ensures
        final(entries)@ == store(old(entries)@, id, value),
{
    let i = find_id(entries, id);
    if i < entries.len() {
        entries.set(i, (id, value));
    } else {
        entries.push((id, value));
    }
}

pub fn remove_id<V>(entries: &mut Vec<(u32, V)>, id: u32)
    ensures
        final(entries)@ == without(old(entries)@, id),
{
    let i = find_id(entries, id);
    if i < entries.len() {
        let _ = entries.remove(i);
    }
}

} // verus!
