//! A map from text to values, in a vector of pairs.
use crate::text;
use crate::text::{str_eq, text_before};
use vstd::prelude::*;

verus! {

/// A map from text to values of type `V`.
///
/// Of several pairs with one key the first counts. A new key is put before the first
/// that is greater, so that two maps that were filled in another order look alike.
#[derive(Debug, PartialEq, Eq)]
pub struct Table<V> {
    entries: Vec<(String, V)>,
}

/// The position of the first of `entries` from `from` on with this key, or
/// their number where there is none.
pub open spec fn place<V>(entries: Seq<(String, V)>, key: Seq<char>, from: int) -> int
    decreases entries.len() - from,
{
    if from < 0 || from >= entries.len() {
        entries.len() as int
    } else if entries[from].0@ == key {
        from
    } else {
        place(entries, key, from + 1)
    }
}

proof fn lemma_place<V>(entries: Seq<(String, V)>, key: Seq<char>, from: int, at: int)
    requires
        0 <= from <= at <= entries.len(),
        forall|i: int| from <= i < at ==> entries[i].0@ != key,
        at < entries.len() ==> entries[at].0@ == key,
    ensures
        place(entries, key, from) == at,
    decreases at - from,
{
    if from < at {
        lemma_place(entries, key, from + 1, at);
    }
}

proof fn lemma_place_is_first<V>(entries: Seq<(String, V)>, key: Seq<char>, from: int)
    requires
        0 <= from <= entries.len(),
    ensures
        from <= place(entries, key, from) <= entries.len(),
        forall|i: int| from <= i < place(entries, key, from) ==> entries[i].0@ != key,
        place(entries, key, from) < entries.len() ==> entries[place(entries, key, from)].0@ == key,
    decreases entries.len() - from,
{
    if from < entries.len() && entries[from].0@ != key {
        lemma_place_is_first(entries, key, from + 1);
    }
}

/// The map that `entries` stand for.
pub open spec fn entries_map<V: View>(entries: Seq<(String, V)>) -> Map<Seq<char>, V::V> {
    Map::new(
        |key: Seq<char>| place(entries, key, 0) < entries.len(),
        |key: Seq<char>| entries[place(entries, key, 0)].1@,
    )
}

impl<V: View> View for Table<V> {
    type V = Map<Seq<char>, V::V>;

    closed spec fn view(&self) -> Map<Seq<char>, V::V> {
        entries_map(self.entries@)
    }
}

/// What a map holds under a key.
pub open spec fn lookup<V>(m: Map<Seq<char>, V>, key: Seq<char>) -> Option<V> {
    if m.contains_key(key) {
        Some(m[key])
    } else {
        None
    }
}

impl<V: View> Table<V> {
    /// An empty map.
    pub fn new() -> (table: Table<V>)
        ensures
            table@ == Map::<Seq<char>, V::V>::empty(),
    {
        let table = Table { entries: Vec::new() };
        assert(table@ =~= Map::<Seq<char>, V::V>::empty());
        table
    }

    fn find(&self, key: &str) -> (at: usize)
        ensures
            at == place(self.entries@, key@, 0),
            at <= self.entries@.len(),
    {
        let mut i: usize = 0;
        while i < self.entries.len()
            invariant
                i <= self.entries@.len(),
                forall|k: int| 0 <= k < i ==> self.entries@[k].0@ != key@,
            decreases self.entries@.len() - i,
        {
            if str_eq(self.entries[i].0.as_str(), key) {
                proof {
                    lemma_place(self.entries@, key@, 0, i as int);
                }
                return i;
            }
            i += 1;
        }
        proof {
            lemma_place(self.entries@, key@, 0, i as int);
        }
        i
    }

    /// The value under `key`.
    pub fn get(&self, key: &str) -> (value: Option<&V>)
        ensures
            match value {
                Some(v) => lookup(self@, key@) == Some(v@),
                None => lookup(self@, key@) is None,
            },
    {
        let at: usize = self.find(key);
        if at < self.entries.len() {
            Some(&self.entries[at].1)
        } else {
            None
        }
    }

    /// Whether there is a value under `key`.
    pub fn contains_key(&self, key: &str) -> (found: bool)
        ensures
            found == self@.contains_key(key@),
    {
        self.find(key) < self.entries.len()
    }

    /// Puts `value` under `key`, in place of what was there.
    pub fn insert(&mut self, key: String, value: V)
        ensures
            final(self)@ == old(self)@.insert(key@, value@),
    {
        let mut at: usize = self.find(key.as_str());
        let ghost before = self.entries@;
        let ghost known = at < before.len();
        let ghost name = key@;
        let ghost put = value@;
        proof {
            lemma_place_is_first(before, name, 0);
        }
        if at < self.entries.len() {
            let _ = self.entries.remove(at);
            self.entries.insert(at, (key, value));
            assert(self.entries@ == before.update(at as int, (key, value)));
        } else {
            let mut to: usize = 0;
            while to < self.entries.len() && text_before(self.entries[to].0.as_str(), key.as_str())
                invariant
                    to <= self.entries@.len(),
                    self.entries@ == before,
                decreases self.entries@.len() - to,
            {
                to += 1;
            }
            self.entries.insert(to, (key, value));
            at = to;
            assert(self.entries@ == before.insert(to as int, (key, value)));
        }
        let ghost after = self.entries@;
        assert forall|k: Seq<char>| true implies {
            &&& (#[trigger] place(after, k, 0) < after.len()) == (k == name || place(before, k, 0)
                < before.len())
            &&& place(after, k, 0) < after.len() ==> after[place(after, k, 0)].1@ == if k == name {
                put
            } else {
                before[place(before, k, 0)].1@
            }
        } by {
            lemma_place_is_first(before, k, 0);
            let p = place(before, k, 0);
            if k == name {
                lemma_place(after, k, 0, at as int);
            } else if known || p < at {
                lemma_place(after, k, 0, p);
            } else {
                assert forall|i: int| 0 <= i < p + 1 implies after[i].0@ != k by {
                    if i > at {
                        assert(after[i] == before[i - 1]);
                    }
                }
                lemma_place(after, k, 0, p + 1);
            }
        }
        assert(entries_map(after) =~= entries_map(before).insert(name, put));
    }

    /// The pairs, first to last.
    pub fn entries(&self) -> (entries: &Vec<(String, V)>)
        ensures
            entries_map(entries@) == self@,
    {
        &self.entries
    }

    /// Takes out what is under `key`.
    pub fn remove(&mut self, key: &str) -> (value: Option<V>)
        ensures
            final(self)@ == old(self)@.remove(key@),
            match value {
                Some(v) => lookup(old(self)@, key@) == Some(v@),
                None => lookup(old(self)@, key@) is None,
            },
    {
        let ghost start = self@;
        let mut value: Option<V> = None;
        let mut at: usize = self.find(key);
        while at < self.entries.len()
            invariant
                at == place(self.entries@, key@, 0),
                at <= self.entries@.len(),
                self@.remove(key@) == start.remove(key@),
                match value {
                    Some(v) => lookup(start, key@) == Some(v@),
                    None => self@ == start,
                },
            decreases self.entries@.len(),
        {
            let ghost before = self.entries@;
            let entry = self.entries.remove(at);
            let ghost after = self.entries@;
            proof {
                lemma_place_is_first(before, key@, 0);
                assert forall|k: Seq<char>| k != key@ implies {
                    &&& (#[trigger] place(after, k, 0) < after.len()) == (place(before, k, 0)
                        < before.len())
                    &&& place(after, k, 0) < after.len() ==> after[place(after, k, 0)]
                        == before[place(before, k, 0)]
                } by {
                    lemma_place_is_first(before, k, 0);
                    let p = place(before, k, 0);
                    if p < at {
                        lemma_place(after, k, 0, p);
                    } else if p < before.len() {
                        assert forall|i: int| 0 <= i < p - 1 implies after[i].0@ != k by {
                            if i >= at {
                                assert(after[i] == before[i + 1]);
                            }
                        }
                        lemma_place(after, k, 0, p - 1);
                    } else {
                        assert forall|i: int| 0 <= i < after.len() implies after[i].0@ != k by {
                            if i >= at {
                                assert(after[i] == before[i + 1]);
                            }
                        }
                        lemma_place(after, k, 0, after.len() as int);
                    }
                }
                assert(entries_map(after).remove(key@) =~= entries_map(before).remove(key@));
            }
            if value.is_none() {
                value = Some(entry.1);
            }
            at = self.find(key);
        }
        assert(self@.remove(key@) =~= self@);
        value
    }
}

proof fn lemma_front<V: View>(entries: Seq<(String, V)>)
    requires
        entries.len() > 0,
    ensures
        entries_map(entries) == entries_map(entries.skip(1)).insert(entries[0].0@, entries[0].1@),
{
    let rest = entries.skip(1);
    assert forall|k: Seq<char>| true implies {
        &&& (#[trigger] place(entries, k, 0) < entries.len()) == (k == entries[0].0@ || place(
            rest,
            k,
            0,
        ) < rest.len())
        &&& place(entries, k, 0) < entries.len() ==> entries[place(entries, k, 0)] == if k
            == entries[0].0@ {
            entries[0]
        } else {
            rest[place(rest, k, 0)]
        }
    } by {
        lemma_place_is_first(rest, k, 0);
        if k != entries[0].0@ {
            let p = place(rest, k, 0);
            assert forall|i: int| 0 <= i < p + 1 implies entries[i].0@ != k by {
                if i > 0 {
                    assert(rest[i - 1] == entries[i]);
                }
            }
            lemma_place(entries, k, 0, p + 1);
        }
    }
    assert(entries_map(entries) =~= entries_map(rest).insert(entries[0].0@, entries[0].1@));
}

impl Table<String> {
    /// Whether there is nothing in it.
    pub fn is_empty(&self) -> (empty: bool)
        ensures
            empty == (self@ == Map::<Seq<char>, Seq<char>>::empty()),
    {
        if self.entries.len() > 0 {
            assert(self@.contains_key(self.entries@[0].0@));
            false
        } else {
            assert(self@ =~= Map::<Seq<char>, Seq<char>>::empty());
            true
        }
    }

    /// Puts every pair of `other` in, in place of what was there.
    pub fn extend(&mut self, other: &Table<String>)
        ensures
            final(self)@ == old(self)@.union_prefer_right(other@),
    {
        let mut i: usize = other.entries.len();
        let ghost start = self@;
        assert(other.entries@.skip(i as int).len() == 0);
        assert(self@ =~= start.union_prefer_right(entries_map(other.entries@.skip(i as int))));
        while i > 0
            invariant
                i <= other.entries@.len(),
                self@ == start.union_prefer_right(entries_map(other.entries@.skip(i as int))),
            decreases i,
        {
            i -= 1;
            proof {
                lemma_front(other.entries@.skip(i as int));
                assert(other.entries@.skip(i as int).skip(1) == other.entries@.skip(i + 1));
            }
            self.insert(other.entries[i].0.clone(), other.entries[i].1.clone());
            assert(self@ =~= start.union_prefer_right(
                entries_map(other.entries@.skip(i as int)),
            ));
        }
        assert(other.entries@.skip(0) == other.entries@);
    }
}

impl Clone for Table<String> {
    fn clone(&self) -> (copy: Table<String>)
        ensures
            copy@ == self@,
    {
        let mut copy: Table<String> = Table::new();
        copy.extend(self);
        assert(copy@ =~= self@);
        copy
    }
}

proof fn lemma_inserted_ascends(keys: Seq<Seq<char>>, at: int, key: Seq<char>)
    requires
        text::ascending(keys),
        0 <= at <= keys.len(),
        at > 0 ==> text::precedes(keys[at - 1], key),
        at < keys.len() ==> text::precedes(key, keys[at]),
    ensures
        text::ascending(keys.insert(at, key)),
{
    let longer = keys.insert(at, key);
    assert forall|i: int| 0 <= i < longer.len() - 1 implies text::precedes(
        #[trigger] longer[i],
        longer[i + 1],
    ) by {
        if i + 1 < at {
            assert(text::precedes(keys[i], keys[i + 1]));
        } else if i > at {
            assert(text::precedes(keys[i - 1], keys[i - 1 + 1]));
        }
    }
}

/// Puts `key` in its place among keys in ascending order, unless it is there.
fn insert_key(keys: &mut Vec<String>, key: &str)
    requires
        text::ascending(text::views(old(keys)@)),
    ensures
        text::ascending(text::views(final(keys)@)),
        forall|k: Seq<char>|
            #[trigger] text::views(final(keys)@).contains(k) <==> k == key@ || text::views(
                old(keys)@,
            ).contains(k),
{
    let ghost before = text::views(keys@);
    let mut at: usize = 0;
    while at < keys.len() && text_before(keys[at].as_str(), key)
        invariant
            at <= keys@.len(),
            before == text::views(keys@),
            at > 0 ==> text::precedes(before[at - 1], key@),
        decreases keys@.len() - at,
    {
        assert(before[at as int] == keys@[at as int]@);
        at += 1;
    }
    if at < keys.len() && str_eq(keys[at].as_str(), key) {
        assert(before[at as int] == key@);
        return;
    }
    proof {
        if at < keys@.len() {
            assert(before[at as int] == keys@[at as int]@);
            text::lemma_precedes_total(before[at as int], key@);
        }
        lemma_inserted_ascends(before, at as int, key@);
    }
    keys.insert(at, key.to_owned());
    let ghost after = text::views(keys@);
    assert(after == before.insert(at as int, key@));
    assert forall|k: Seq<char>| #[trigger] after.contains(k) <==> k == key@ || before.contains(k) by {
        assert(after[at as int] == key@);
        if before.contains(k) {
            let i = choose|i: int| 0 <= i < before.len() && before[i] == k;
            if i < at {
                assert(after[i] == k);
            } else {
                assert(after[i + 1] == k);
            }
        }
        if after.contains(k) && k != key@ {
            let i = choose|i: int| 0 <= i < after.len() && after[i] == k;
            if i < at {
                assert(before[i] == k);
            } else {
                assert(before[i - 1] == k);
            }
        }
    }
}

impl<V: View> Table<V> {
    /// The keys in ascending order, each once.
    pub fn sorted_keys(&self) -> (keys: Vec<String>)
        ensures
            text::ascending(text::views(keys@)),
            forall|k: Seq<char>|
                #[trigger] text::views(keys@).contains(k) <==> self@.contains_key(k),
    {
        let mut keys: Vec<String> = Vec::new();
        let mut i: usize = 0;
        assert(text::views(keys@) == Seq::<Seq<char>>::empty());
        while i < self.entries.len()
            invariant
                i <= self.entries@.len(),
                text::ascending(text::views(keys@)),
                forall|k: Seq<char>|
                    #[trigger] text::views(keys@).contains(k) <==> exists|j: int|
                        0 <= j < i && #[trigger] self.entries@[j].0@ == k,
            decreases self.entries@.len() - i,
        {
            let ghost before = text::views(keys@);
            insert_key(&mut keys, self.entries[i].0.as_str());
            assert forall|k: Seq<char>| #[trigger] text::views(keys@).contains(k) <==> exists|j: int|
                0 <= j < i + 1 && #[trigger] self.entries@[j].0@ == k by {
                if k == self.entries@[i as int].0@ {
                } else if before.contains(k) {
                    let j = choose|j: int| 0 <= j < i && #[trigger] self.entries@[j].0@ == k;
                    assert(0 <= j < i + 1 && self.entries@[j].0@ == k);
                }
                if exists|j: int| 0 <= j < i + 1 && #[trigger] self.entries@[j].0@ == k {
                    let j = choose|j: int| 0 <= j < i + 1 && #[trigger] self.entries@[j].0@ == k;
                    if j < i {
                        assert(before.contains(k));
                    }
                }
            }
            i += 1;
        }
        assert forall|k: Seq<char>| #[trigger] text::views(keys@).contains(k)
            <==> self@.contains_key(k) by {
            lemma_place_is_first(self.entries@, k, 0);
            if text::views(keys@).contains(k) {
                let j = choose|j: int| 0 <= j < i && #[trigger] self.entries@[j].0@ == k;
                assert(place(self.entries@, k, 0) <= j);
            }
            if self@.contains_key(k) {
                let at = place(self.entries@, k, 0);
                assert(0 <= at < i && self.entries@[at].0@ == k);
            }
        }
        keys
    }
}

} // verus!
