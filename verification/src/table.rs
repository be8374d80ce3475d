//! A table from text keys to values, in which no key occurs twice.

use crate::text::same;
use vstd::prelude::*;

verus! {

/// A table from text keys to values.
#[derive(Debug)]
pub struct Table<V> {
    entries: Vec<(String, V)>,
}

/// Whether the entry at `i` has the key `k`.
pub open spec fn key_at<V>(entries: Seq<(String, V)>, i: int, k: Seq<char>) -> bool {
    0 <= i < entries.len() && entries[i].0@ == k
}

/// Whether no two entries share a key.
pub open spec fn keys_unique<V>(entries: Seq<(String, V)>) -> bool {
    forall|i: int, j: int|
        0 <= i < entries.len() && 0 <= j < entries.len() && i != j ==> (#[trigger] entries[i]).0@
            != (#[trigger] entries[j]).0@
}

/// The map that a list of entries stands for.
pub open spec fn entry_map<V>(entries: Seq<(String, V)>) -> Map<Seq<char>, V> {
    Map::new(
        |k: Seq<char>| exists|i: int| key_at(entries, i, k),
        |k: Seq<char>| entries[choose|i: int| key_at(entries, i, k)].1,
    )
}

/// Where the keys are unique, each entry is what the map holds at its key.
pub proof fn lemma_entry_at<V>(entries: Seq<(String, V)>, i: int)
    requires
        keys_unique(entries),
        0 <= i < entries.len(),
    ensures
        entry_map(entries).contains_key(entries[i].0@),
        entry_map(entries)[entries[i].0@] == entries[i].1,
{
    let k = entries[i].0@;
    assert(key_at(entries, i, k));
    let j = choose|j: int| key_at(entries, j, k);
    assert(entries[j].0@ == entries[i].0@);
}

/// A key of the map is the key of some entry.
proof fn lemma_key_has_entry<V>(entries: Seq<(String, V)>, k: Seq<char>) -> (i: int)
    requires
        keys_unique(entries),
        entry_map(entries).contains_key(k),
    ensures
        0 <= i < entries.len(),
        entries[i].0@ == k,
        entry_map(entries)[k] == entries[i].1,
{
    let i = choose|i: int| key_at(entries, i, k);
    lemma_entry_at(entries, i);
    i
}

impl<V> View for Table<V> {
    type V = Map<Seq<char>, V>;

    closed spec fn view(&self) -> Map<Seq<char>, V> {
        entry_map(self.entries@)
    }
}

impl<V> Table<V> {
    #[verifier::type_invariant]
    spec fn well_formed(self) -> bool {
        keys_unique(self.entries@)
    }

    /// A table without entries.
    pub fn new() -> (r: Self)
        ensures
            r@ == Map::<Seq<char>, V>::empty(),
    {
        let r = Table { entries: Vec::new() };
        assert(r@ =~= Map::<Seq<char>, V>::empty());
        r
    }

    /// The entries, each key once.
    pub fn entries(&self) -> (r: &Vec<(String, V)>)
        ensures
            keys_unique(r@),
            entry_map(r@) == self@,
    {
        proof {
            use_type_invariant(self);
        }
        &self.entries
    }

    fn position(&self, key: &str) -> (r: Option<usize>)
        ensures
            r matches Some(i) ==> key_at(self.entries@, i as int, key@),
            r is None ==> forall|i: int| !key_at(self.entries@, i, key@),
    {
        for i in 0..self.entries.len()
            invariant
                forall|j: int| 0 <= j < i ==> !key_at(self.entries@, j, key@),
        {
            if same(self.entries[i].0.as_str(), key) {
                return Some(i);
            }
        }
        None
    }

    /// What the table holds at `key`.
    pub fn get(&self, key: &str) -> (r: Option<&V>)
        ensures
            r matches Some(v) ==> self@.contains_key(key@) && self@[key@] == *v,
            r is None ==> !self@.contains_key(key@),
    {
        proof {
            use_type_invariant(self);
        }
        match self.position(key) {
            Some(i) => {
                proof {
                    lemma_entry_at(self.entries@, i as int);
                }
                Some(&self.entries[i].1)
            },
            None => None,
        }
    }

    /// Takes what the table holds at `key` out of it.
    pub fn remove(&mut self, key: &str) -> (r: Option<V>)
        ensures
            final(self)@ == old(self)@.remove(key@),
            r matches Some(v) ==> old(self)@.contains_key(key@) && old(self)@[key@] == v,
            r is None ==> !old(self)@.contains_key(key@),
    {
        proof {
            use_type_invariant(&*self);
        }
        let ghost before = self.entries@;
        match self.position(key) {
            Some(i) => {
                let mut entries: Vec<(String, V)> = Vec::new();
                std::mem::swap(&mut entries, &mut self.entries);
                let taken = entries.remove(i);
                let ghost after = entries@;
                proof {
                    lemma_entry_at(before, i as int);
                    lemma_remove(before, i as int);
                }
                self.entries = entries;
                Some(taken.1)
            },
            None => {
                assert(self@.remove(key@) =~= self@);
                None
            },
        }
    }

    /// Puts `value` at `key`, in place of what was there.
    pub fn insert(&mut self, key: String, value: V)
        ensures
            final(self)@ == old(self)@.insert(key@, value),
    {
        let ghost start = self@;
        let previous = self.remove(key.as_str());
        proof {
            use_type_invariant(&*self);
        }
        let ghost before = self.entries@;
        let mut entries: Vec<(String, V)> = Vec::new();
        std::mem::swap(&mut entries, &mut self.entries);
        proof {
            lemma_push(before, (key, value));
        }
        entries.push((key, value));
        self.entries = entries;
        assert(start.remove(key@).insert(key@, value) =~= start.insert(key@, value));
    }
}

/// Whether something stamped `stamp` is younger than `limit` at `now`. What
/// bears a stamp after `now` has no age.
pub open spec fn younger(stamp: u128, now: u128, limit: u128) -> bool {
    (if now >= stamp {
        now - stamp
    } else {
        0
    }) < limit
}

/// The entries of a map of stamped values that are younger than `limit`.
pub open spec fn young_entries<V>(
    m: Map<Seq<char>, (u128, V)>,
    now: u128,
    limit: u128,
) -> Map<Seq<char>, (u128, V)> {
    Map::new(|k: Seq<char>| m.contains_key(k) && younger(m[k].0, now, limit), |k: Seq<char>| m[k])
}

impl<V> Table<(u128, V)> {
    /// Drops the entries that are not younger than `limit` at `now`.
    pub fn retain_younger(&mut self, now: u128, limit: u128)
        ensures
            final(self)@ == young_entries(old(self)@, now, limit),
    {
        proof {
            use_type_invariant(&*self);
        }
        let ghost start = self@;
        let mut entries: Vec<(String, (u128, V))> = Vec::new();
        std::mem::swap(&mut entries, &mut self.entries);
        let mut i: usize = entries.len();
        while i > 0
            invariant
                i <= entries@.len(),
                keys_unique(entries@),
                forall|j: int|
                    i <= j < entries@.len() ==> younger((#[trigger] entries@[j]).1.0, now, limit),
                forall|k: Seq<char>| #[trigger]
                    entry_map(entries@).contains_key(k) ==> start.contains_key(k) && start[k]
                        == entry_map(entries@)[k],
                forall|k: Seq<char>| #[trigger]
                    start.contains_key(k) && younger(start[k].0, now, limit) ==> entry_map(
                        entries@,
                    ).contains_key(k),
            decreases i,
        {
            i = i - 1;
            if now.saturating_sub(entries[i].1.0) >= limit {
                proof {
                    lemma_entry_at(entries@, i as int);
                    lemma_remove(entries@, i as int);
                }
                entries.remove(i);
            }
        }
        proof {
            assert forall|k: Seq<char>| #[trigger] entry_map(entries@).contains_key(k) implies younger(
                start[k].0,
                now,
                limit,
            ) by {
                let j = lemma_key_has_entry(entries@, k);
            }
            assert(entry_map(entries@) =~= young_entries(start, now, limit));
        }
        self.entries = entries;
    }
}

/// Taking out an entry takes its key out of the map.
proof fn lemma_remove<V>(entries: Seq<(String, V)>, i: int)
    requires
        keys_unique(entries),
        0 <= i < entries.len(),
    ensures
        keys_unique(entries.remove(i)),
        entry_map(entries.remove(i)) == entry_map(entries).remove(entries[i].0@),
{
    let rest = entries.remove(i);
    assert(keys_unique(rest)) by {
        assert forall|a: int, b: int|
            0 <= a < rest.len() && 0 <= b < rest.len() && a != b implies (#[trigger] rest[a]).0@
            != (#[trigger] rest[b]).0@ by {
            let x = if a < i { a } else { a + 1 };
            let y = if b < i { b } else { b + 1 };
            assert(rest[a] == entries[x] && rest[b] == entries[y]);
        }
    }
    let k0 = entries[i].0@;
    assert forall|k: Seq<char>| #[trigger]
        entry_map(rest).contains_key(k) implies entry_map(entries).contains_key(k) && k != k0
        && entry_map(rest)[k] == entry_map(entries)[k] by {
        let a = lemma_key_has_entry(rest, k);
        let x = if a < i { a } else { a + 1 };
        assert(rest[a] == entries[x]);
        lemma_entry_at(entries, x);
    }
    assert forall|k: Seq<char>| #[trigger]
        entry_map(entries).contains_key(k) && k != k0 implies entry_map(rest).contains_key(k) by {
        let x = lemma_key_has_entry(entries, k);
        let a = if x < i { x } else { x - 1 };
        assert(rest[a] == entries[x]);
        lemma_entry_at(rest, a);
    }
    assert(entry_map(rest) =~= entry_map(entries).remove(k0));
}

/// Adding an entry under a new key adds it to the map.
proof fn lemma_push<V>(entries: Seq<(String, V)>, entry: (String, V))
    requires
        keys_unique(entries),
        !entry_map(entries).contains_key(entry.0@),
    ensures
        keys_unique(entries.push(entry)),
        entry_map(entries.push(entry)) == entry_map(entries).insert(entry.0@, entry.1),
{
    let all = entries.push(entry);
    assert(keys_unique(all)) by {
        assert forall|a: int, b: int|
            0 <= a < all.len() && 0 <= b < all.len() && a != b implies (#[trigger] all[a]).0@ != (
        #[trigger] all[b]).0@ by {
            if a < entries.len() {
                lemma_entry_at(entries, a);
                assert(all[a] == entries[a]);
            }
            if b < entries.len() {
                lemma_entry_at(entries, b);
                assert(all[b] == entries[b]);
            }
        }
    }
    assert forall|k: Seq<char>| #[trigger]
        entry_map(all).contains_key(k) implies entry_map(entries).insert(
        entry.0@,
        entry.1,
    ).contains_key(k) && entry_map(all)[k] == entry_map(entries).insert(entry.0@, entry.1)[k] by {
        let a = lemma_key_has_entry(all, k);
        if a < entries.len() {
            assert(all[a] == entries[a]);
            lemma_entry_at(entries, a);
        }
    }
    assert forall|k: Seq<char>| #[trigger]
        entry_map(entries).insert(entry.0@, entry.1).contains_key(k) implies entry_map(
        all,
    ).contains_key(k) by {
        if k == entry.0@ {
            lemma_entry_at(all, entries.len() as int);
        } else {
            let a = lemma_key_has_entry(entries, k);
            assert(all[a] == entries[a]);
            lemma_entry_at(all, a);
        }
    }
    assert(entry_map(all) =~= entry_map(entries).insert(entry.0@, entry.1));
}

}
