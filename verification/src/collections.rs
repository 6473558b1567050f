//! Small string-keyed collections: a map from strings to strings and a set of
//! strings. Both keep their entries in insertion order and never hold a key
//! twice, so a walk over them is deterministic.

pub mod order;

use vstd::prelude::*;

verus! {

/// Index of the entry whose key is `key`, searching from the back, or -1.
pub open spec fn key_position(entries: Seq<(Seq<char>, Seq<char>)>, key: Seq<char>) -> int
    decreases entries.len(),
{
    if entries.len() == 0 {
        -1
    } else if entries.last().0 == key {
        entries.len() - 1
    } else {
        key_position(entries.drop_last(), key)
    }
}

/// Index of the last occurrence of `k` in `s`, or -1.
pub open spec fn last_position<K>(s: Seq<K>, k: K) -> int
    decreases s.len(),
{
    if s.len() == 0 {
        -1
    } else if s.last() == k {
        s.len() - 1
    } else {
        last_position(s.drop_last(), k)
    }
}

/// `last_position` finds an occurrence of `k` exactly when there is one.
pub proof fn lemma_last_position<K>(s: Seq<K>, k: K)
    ensures
        -1 <= last_position(s, k) < s.len(),
        last_position(s, k) >= 0 ==> s[last_position(s, k)] == k,
        last_position(s, k) == -1 <==> !s.contains(k),
    decreases s.len(),
{
    if s.len() > 0 {
        lemma_last_position(s.drop_last(), k);
        if s.last() == k {
            assert(s[s.len() - 1] == k);
        } else {
            if s.contains(k) {
                let w = choose|w: int| 0 <= w < s.len() && s[w] == k;
                assert(s.drop_last()[w] == k);
            }
            if s.drop_last().contains(k) {
                let w = choose|w: int| 0 <= w < s.drop_last().len() && s.drop_last()[w] == k;
                assert(s[w] == k);
            }
        }
    }
}

/// No key occurs twice among `entries`.
pub open spec fn keys_unique(entries: Seq<(Seq<char>, Seq<char>)>) -> bool {
    forall|i: int, j: int|
        0 <= i < j < entries.len() ==> #[trigger] entries[i].0 != #[trigger] entries[j].0
}

/// The value stored under `key`, if any.
pub open spec fn lookup(entries: Seq<(Seq<char>, Seq<char>)>, key: Seq<char>) -> Option<Seq<char>> {
    let p = key_position(entries, key);
    if p >= 0 {
        Some(entries[p].1)
    } else {
        None
    }
}

/// `entries` with `value` stored under `key`: replacing the value there, or
/// appended.
pub open spec fn map_insert(entries: Seq<(Seq<char>, Seq<char>)>, key: Seq<char>, value: Seq<char>) -> Seq<(Seq<char>, Seq<char>)> {
    if key_position(entries, key) >= 0 {
        entries.update(key_position(entries, key), (key, value))
    } else {
        entries.push((key, value))
    }
}

/// `key_position` finds exactly the entries whose key matches.
pub proof fn lemma_key_position(entries: Seq<(Seq<char>, Seq<char>)>, key: Seq<char>)
    ensures
        -1 <= key_position(entries, key) < entries.len(),
        key_position(entries, key) >= 0 ==> entries[key_position(entries, key)].0 == key,
        key_position(entries, key) == -1 <==> (forall|i: int|
            0 <= i < entries.len() ==> #[trigger] entries[i].0 != key),
        keys_unique(entries) ==> forall|i: int|
            0 <= i < entries.len() && #[trigger] entries[i].0 == key ==> key_position(entries, key)
                == i,
    decreases entries.len(),
{
    if entries.len() > 0 {
        let rest = entries.drop_last();
        lemma_key_position(rest, key);
        assert forall|i: int| 0 <= i < entries.len() - 1 implies #[trigger] rest[i] == entries[i] by {}
        if key_position(entries, key) == -1 {
            assert forall|i: int| 0 <= i < entries.len() implies #[trigger] entries[i].0 != key by {
                if i < entries.len() - 1 {
                    assert(rest[i] == entries[i]);
                }
            }
        }
        if keys_unique(entries) {
            assert(keys_unique(rest)) by {
                assert forall|a: int, b: int| 0 <= a < b < rest.len() implies #[trigger] rest[a].0
                    != #[trigger] rest[b].0 by {
                    assert(entries[a].0 != entries[b].0);
                }
            }
            assert forall|i: int| 0 <= i < entries.len() && #[trigger] entries[i].0 == key implies key_position(
                entries,
                key,
            ) == i by {
                if i < entries.len() - 1 {
                    assert(entries[i].0 != entries[entries.len() - 1].0);
                    assert(rest[i].0 == key);
                }
            }
        }
    }
}

/// A map from strings to strings that keeps insertion order.
#[derive(Debug, PartialEq, Eq)]
pub struct StringMap {
    entries: Vec<(String, String)>,
}

impl View for StringMap {
    type V = Seq<(Seq<char>, Seq<char>)>;

    /// The entries, in insertion order, as pairs of character sequences.
    closed spec fn view(&self) -> Seq<(Seq<char>, Seq<char>)> {
        self.entries@.map_values(|e: (String, String)| (e.0@, e.1@))
    }
}

impl StringMap {
    /// No key occurs twice.
    #[verifier::type_invariant]
    pub open spec fn inv(self) -> bool {
        keys_unique(self@)
    }

    /// An empty map.
    pub fn new() -> (m: Self)
        ensures
            m@ == Seq::<(Seq<char>, Seq<char>)>::empty(),
    {
        let m = StringMap { entries: Vec::new() };
        assert(m@ =~= Seq::<(Seq<char>, Seq<char>)>::empty());
        m
    }

    /// Number of entries.
    pub fn len(&self) -> (n: usize)
        ensures
            n == self@.len(),
    {
        self.entries.len()
    }

    /// Whether the map is empty.
    pub fn is_empty(&self) -> (b: bool)
        ensures
            b == (self@.len() == 0),
    {
        self.entries.len() == 0
    }

    /// Position of `key` among the entries, or `None`.
    fn find(&self, key: &String) -> (p: Option<usize>)
        ensures
            p matches Some(i) ==> i == key_position(self@, key@) && i < self@.len() && self@[i as int].0
                == key@,
            p is None ==> key_position(self@, key@) == -1,
    {
        proof {
            use_type_invariant(self);
            lemma_key_position(self@, key@);
        }
        let mut i: usize = 0;
        while i < self.entries.len()
            invariant
                i <= self.entries.len(),
                keys_unique(self@),
                forall|j: int| 0 <= j < i ==> #[trigger] self@[j].0 != key@,
                -1 <= key_position(self@, key@) < self@.len(),
                key_position(self@, key@) >= 0 ==> self@[key_position(self@, key@)].0 == key@,
                key_position(self@, key@) == -1 <==> (forall|j: int|
                    0 <= j < self@.len() ==> #[trigger] self@[j].0 != key@),
                forall|j: int|
                    0 <= j < self@.len() && #[trigger] self@[j].0 == key@ ==> key_position(self@, key@)
                        == j,
            decreases self.entries.len() - i,
        {
            if self.entries[i].0 == *key {
                assert(self@[i as int].0 == key@);
                return Some(i);
            }
            i = i + 1;
        }
        None
    }

    /// Inserts `value` under `key`, replacing the value already there.
    pub fn insert(&mut self, key: String, value: String)
        ensures
            key_position(old(self)@, key@) >= 0 ==> final(self)@ == old(self)@.update(
                key_position(old(self)@, key@),
                (key@, value@),
            ),
            key_position(old(self)@, key@) == -1 ==> final(self)@ == old(self)@.push((key@, value@)),
            final(self)@ == map_insert(old(self)@, key@, value@),
    {
        proof {
            use_type_invariant(&*self);
            lemma_key_position(self@, key@);
        }
        let ghost before = self@;
        let found = self.find(&key);
        let mut entries: Vec<(String, String)> = Vec::new();
        std::mem::swap(&mut entries, &mut self.entries);
        assert(entries@.map_values(|e: (String, String)| (e.0@, e.1@)) == before);
        match found {
            Some(i) => {
                entries.set(i, (key, value));
                let ghost after = entries@.map_values(|e: (String, String)| (e.0@, e.1@));
                assert(after =~= before.update(i as int, (key@, value@)));
                assert(keys_unique(after)) by {
                    assert forall|a: int, b: int| 0 <= a < b < after.len() implies #[trigger] after[a].0
                        != #[trigger] after[b].0 by {
                        assert(before[a].0 != before[b].0);
                    }
                }
            },
            None => {
                entries.push((key, value));
                let ghost after = entries@.map_values(|e: (String, String)| (e.0@, e.1@));
                assert(after =~= before.push((key@, value@)));
                assert(keys_unique(after)) by {
                    assert forall|a: int, b: int| 0 <= a < b < after.len() implies #[trigger] after[a].0
                        != #[trigger] after[b].0 by {
                        if b < before.len() {
                            assert(before[a].0 != before[b].0);
                        } else {
                            assert(before[a].0 != key@);
                        }
                    }
                }
            },
        }
        self.entries = entries;
    }

    /// The value stored under `key`.
    pub fn get(&self, key: &String) -> (v: Option<&String>)
        ensures
            lookup(self@, key@) is None ==> v is None,
            lookup(self@, key@) matches Some(x) ==> (v matches Some(s) && s@ == x),
    {
        match self.find(key) {
            Some(i) => Some(&self.entries[i].1),
            None => None,
        }
    }

    /// Whether some entry has key `key`.
    pub fn contains_key(&self, key: &String) -> (b: bool)
        ensures
            b == (lookup(self@, key@) is Some),
    {
        self.find(key).is_some()
    }

    /// Key of the `i`-th entry.
    pub fn key_at(&self, i: usize) -> (k: &String)
        requires
            i < self@.len(),
        ensures
            k@ == self@[i as int].0,
    {
        &self.entries[i].0
    }

    /// Value of the `i`-th entry.
    pub fn value_at(&self, i: usize) -> (v: &String)
        requires
            i < self@.len(),
        ensures
            v@ == self@[i as int].1,
    {
        &self.entries[i].1
    }
}

impl Clone for StringMap {
    /// A copy with the same entries in the same order.
    fn clone(&self) -> (m: Self)
        ensures
            m@ == self@,
    {
        proof {
            use_type_invariant(self);
        }
        let mut entries: Vec<(String, String)> = Vec::new();
        let mut i: usize = 0;
        while i < self.entries.len()
            invariant
                i <= self.entries.len(),
                entries@.len() == i,
                forall|j: int|
                    0 <= j < i ==> (#[trigger] entries@[j]).0@ == self.entries@[j].0@
                        && entries@[j].1@ == self.entries@[j].1@,
            decreases self.entries.len() - i,
        {
            let k = self.entries[i].0.clone();
            let v = self.entries[i].1.clone();
            entries.push((k, v));
            i = i + 1;
        }
        assert(entries@.map_values(|e: (String, String)| (e.0@, e.1@)) =~= self@);
        let m = StringMap { entries };
        m
    }
}

/// A set of strings that keeps insertion order.
#[derive(Debug, PartialEq, Eq)]
pub struct StringSet {
    items: Vec<String>,
}

impl View for StringSet {
    type V = Seq<Seq<char>>;

    /// The members in insertion order.
    closed spec fn view(&self) -> Seq<Seq<char>> {
        self.items@.map_values(|s: String| s@)
    }
}

impl StringSet {
    /// No member occurs twice.
    #[verifier::type_invariant]
    pub open spec fn inv(self) -> bool {
        self@.no_duplicates()
    }

    /// An empty set.
    pub fn new() -> (s: Self)
        ensures
            s@ == Seq::<Seq<char>>::empty(),
    {
        let s = StringSet { items: Vec::new() };
        assert(s@ =~= Seq::<Seq<char>>::empty());
        s
    }

    /// Number of members.
    pub fn len(&self) -> (n: usize)
        ensures
            n == self@.len(),
    {
        self.items.len()
    }

    /// Whether the set is empty.
    pub fn is_empty(&self) -> (b: bool)
        ensures
            b == (self@.len() == 0),
    {
        self.items.len() == 0
    }

    /// Whether `item` is a member.
    pub fn contains(&self, item: &String) -> (b: bool)
        ensures
            b == self@.contains(item@),
    {
        let mut i: usize = 0;
        while i < self.items.len()
            invariant
                i <= self.items.len(),
                forall|j: int| 0 <= j < i ==> #[trigger] self@[j] != item@,
            decreases self.items.len() - i,
        {
            if self.items[i] == *item {
                assert(self@[i as int] == item@);
                return true;
            }
            i = i + 1;
        }
        false
    }

    /// Adds `item` unless it is already a member.
    pub fn insert(&mut self, item: String)
        ensures
            old(self)@.contains(item@) ==> final(self)@ == old(self)@,
            !old(self)@.contains(item@) ==> final(self)@ == old(self)@.push(item@),
    {
        proof {
            use_type_invariant(&*self);
        }
        if !self.contains(&item) {
            let ghost before = self@;
            let mut items: Vec<String> = Vec::new();
            std::mem::swap(&mut items, &mut self.items);
            assert(items@.map_values(|s: String| s@) == before);
            items.push(item);
            let ghost after = items@.map_values(|s: String| s@);
            assert(after =~= before.push(item@));
            assert(after.no_duplicates()) by {
                assert forall|a: int, b: int| 0 <= a < after.len() && 0 <= b < after.len() && a != b
                    implies after[a] != after[b] by {
                    if a < before.len() && b < before.len() {
                        assert(before[a] != before[b]);
                    } else if a < before.len() {
                        assert(before.contains(before[a]));
                    } else {
                        assert(before.contains(before[b]));
                    }
                }
            }
            self.items = items;
        }
    }

    /// The `i`-th member.
    pub fn item_at(&self, i: usize) -> (s: &String)
        requires
            i < self@.len(),
        ensures
            s@ == self@[i as int],
    {
        &self.items[i]
    }
}

impl Clone for StringSet {
    /// A copy with the same members in the same order.
    fn clone(&self) -> (c: Self)
        ensures
            c@ == self@,
    {
        proof {
            use_type_invariant(self);
        }
        let mut items: Vec<String> = Vec::new();
        let mut i: usize = 0;
        while i < self.items.len()
            invariant
                i <= self.items.len(),
                items@.len() == i,
                forall|j: int| 0 <= j < i ==> (#[trigger] items@[j])@ == self.items@[j]@,
            decreases self.items.len() - i,
        {
            items.push(self.items[i].clone());
            i = i + 1;
        }
        assert(items@.map_values(|s: String| s@) =~= self@);
        let c = StringSet { items };
        c
    }
}

} // verus!
