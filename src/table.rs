//! A small keyed table: a list of `(key, value)` entries with unique keys,
//! kept in the order in which keys were first inserted.
use vstd::prelude::*;

verus! {

/// A key type whose equality can be decided in executable code.
pub trait TableKey: Sized + Copy {
    fn same_key(&self, other: &Self) -> (r: bool)
        ensures
            r == (*self == *other),
    ;
}

impl TableKey for u32 {
    fn same_key(&self, other: &u32) -> (r: bool) {
        *self == *other
    }
}

impl TableKey for u64 {
    fn same_key(&self, other: &u64) -> (r: bool) {
        *self == *other
    }
}

/// The map described by a list of entries; a later entry for a key
/// overrides an earlier one.
pub open spec fn entries_map<K, V>(s: Seq<(K, V)>) -> Map<K, V>
    decreases s.len(),
{
    if s.len() == 0 {
        Map::empty()
    } else {
        entries_map(s.drop_last()).insert(s.last().0, s.last().1)
    }
}

/// No two entries share a key.
pub open spec fn keys_unique<K, V>(s: Seq<(K, V)>) -> bool {
    forall|i: int, j: int|
        0 <= i < s.len() && 0 <= j < s.len() && i != j ==> #[trigger] s[i].0 != #[trigger] s[j].0
}

proof fn lemma_entries_map_dom<K, V>(s: Seq<(K, V)>, k: K)
    ensures
        entries_map(s).contains_key(k) <==> exists|i: int| 0 <= i < s.len() && #[trigger] s[i].0 == k,
    decreases s.len(),
{
    if s.len() > 0 {
        let d = s.drop_last();
        lemma_entries_map_dom(d, k);
        if exists|i: int| 0 <= i < d.len() && #[trigger] d[i].0 == k {
            let i = choose|i: int| 0 <= i < d.len() && #[trigger] d[i].0 == k;
            assert(s[i].0 == k);
        }
        if exists|i: int| 0 <= i < s.len() && #[trigger] s[i].0 == k {
            let i = choose|i: int| 0 <= i < s.len() && #[trigger] s[i].0 == k;
            if i < s.len() - 1 {
                assert(d[i].0 == k);
            }
        }
    }
}

proof fn lemma_entries_map_value<K, V>(s: Seq<(K, V)>, i: int)
    requires
        keys_unique(s),
        0 <= i < s.len(),
    ensures
        entries_map(s).contains_key(s[i].0),
        entries_map(s)[s[i].0] == s[i].1,
    decreases s.len(),
{
    if i < s.len() - 1 {
        let d = s.drop_last();
        assert(d[i] == s[i]);
        assert(s[i].0 != s[s.len() - 1].0);
        lemma_entries_map_value(d, i);
    }
}

proof fn lemma_entries_map_update<K, V>(s: Seq<(K, V)>, i: int, v: V)
    requires
        keys_unique(s),
        0 <= i < s.len(),
    ensures
        entries_map(s.update(i, (s[i].0, v))) == entries_map(s).insert(s[i].0, v),
    decreases s.len(),
{
    let t = s.update(i, (s[i].0, v));
    let d = s.drop_last();
    if i == s.len() - 1 {
        assert(t.drop_last() =~= d);
        assert(entries_map(t) =~= entries_map(s).insert(s[i].0, v));
    } else {
        assert(t.drop_last() =~= d.update(i, (d[i].0, v)));
        assert(s[i].0 != s[s.len() - 1].0);
        lemma_entries_map_update(d, i, v);
        assert(entries_map(t) =~= entries_map(s).insert(s[i].0, v));
    }
}

proof fn lemma_entries_map_remove<K, V>(s: Seq<(K, V)>, i: int)
    requires
        keys_unique(s),
        0 <= i < s.len(),
    ensures
        entries_map(s.remove(i)) == entries_map(s).remove(s[i].0),
        keys_unique(s.remove(i)),
    decreases s.len(),
{
    let t = s.remove(i);
    let d = s.drop_last();
    let k = s[i].0;
    s.remove_ensures(i);
    if i == s.len() - 1 {
        assert(t =~= d);
        lemma_entries_map_dom(d, k);
        assert(!entries_map(d).contains_key(k)) by {
            if exists|j: int| 0 <= j < d.len() && #[trigger] d[j].0 == k {
                let j = choose|j: int| 0 <= j < d.len() && #[trigger] d[j].0 == k;
                assert(s[j].0 == k);
            }
        }
        assert(entries_map(t) =~= entries_map(s).remove(k));
    } else {
        assert(t.drop_last() =~= d.remove(i));
        assert(t.last() == s.last());
        assert(k != s[s.len() - 1].0);
        lemma_entries_map_remove(d, i);
        assert(entries_map(t) =~= entries_map(s).remove(k));
    }
    assert forall|a: int, b: int|
        0 <= a < t.len() && 0 <= b < t.len() && a != b implies #[trigger] t[a].0
        != #[trigger] t[b].0 by {
        let a2 = if a < i {
            a
        } else {
            a + 1
        };
        let b2 = if b < i {
            b
        } else {
            b + 1
        };
        assert(t[a] == s[a2]);
        assert(t[b] == s[b2]);
    }
}

/// A map from keys to values, stored as a list of entries with unique keys.
pub struct Table<K, V> {
    entries: Vec<(K, V)>,
}

impl<K: TableKey, V> View for Table<K, V> {
    type V = Map<K, V>;

    closed spec fn view(&self) -> Map<K, V> {
        entries_map(self.entries@)
    }
}

impl<K: TableKey, V> Table<K, V> {
    /// Well-formedness: no key is stored twice.
    pub closed spec fn wf(&self) -> bool {
        keys_unique(self.entries@)
    }

    pub fn new() -> (r: Self)
        ensures
            r.wf(),
            r@ == Map::<K, V>::empty(),
    {
        Table { entries: Vec::new() }
    }

    fn position(&self, k: &K) -> (r: Option<usize>)
        requires
            self.wf(),
        ensures
            match r {
                Some(i) => i < self.entries@.len() && self.entries@[i as int].0 == *k,
                None => !self@.contains_key(*k),
            },
    {
        let mut i: usize = 0;
        while i < self.entries.len()
            invariant
                i <= self.entries@.len(),
                forall|j: int| 0 <= j < i ==> #[trigger] self.entries@[j].0 != *k,
            decreases self.entries@.len() - i,
        {
            if self.entries[i].0.same_key(k) {
                return Some(i);
            }
            i = i + 1;
        }
        proof {
            lemma_entries_map_dom(self.entries@, *k);
        }
        None
    }

    /// The value stored under `k`, if any.
    pub fn get(&self, k: &K) -> (r: Option<&V>)
        requires
            self.wf(),
        ensures
            match r {
                Some(v) => self@.contains_key(*k) && *v == self@[*k],
                None => !self@.contains_key(*k),
            },
    {
        match self.position(k) {
            Some(i) => {
                proof {
                    lemma_entries_map_value(self.entries@, i as int);
                }
                Some(&self.entries[i].1)
            },
            None => None,
        }
    }

    /// Whether a value is stored under `k`.
    pub fn contains_key(&self, k: &K) -> (r: bool)
        requires
            self.wf(),
        ensures
            r == self@.contains_key(*k),
    {
        match self.position(k) {
            Some(i) => {
                proof {
                    lemma_entries_map_value(self.entries@, i as int);
                }
                true
            },
            None => false,
        }
    }

    /// Stores `v` under `k`, replacing any value stored there.
    pub fn insert(&mut self, k: K, v: V)
        requires
            old(self).wf(),
        ensures
            final(self).wf(),
            final(self)@ == old(self)@.insert(k, v),
    {
        match self.position(&k) {
            Some(i) => {
                proof {
                    lemma_entries_map_update(self.entries@, i as int, v);
                }
                self.entries.set(i, (k, v));
            },
            None => {
                proof {
                    lemma_entries_map_dom(self.entries@, k);
                }
                let ghost s = self.entries@;
                self.entries.push((k, v));
                proof {
                    assert(self.entries@.drop_last() =~= s);
                    assert forall|a: int, b: int|
                        0 <= a < self.entries@.len() && 0 <= b < self.entries@.len() && a
                            != b implies #[trigger] self.entries@[a].0
                        != #[trigger] self.entries@[b].0 by {
                        if a < s.len() && b < s.len() {
                            assert(s[a] == self.entries@[a]);
                            assert(s[b] == self.entries@[b]);
                        } else if a < s.len() {
                            assert(s[a] == self.entries@[a]);
                        } else {
                            assert(s[b] == self.entries@[b]);
                        }
                    }
                }
            },
        }
    }

    /// Removes the value stored under `k` and returns it.
    pub fn remove(&mut self, k: &K) -> (r: Option<V>)
        requires
            old(self).wf(),
        ensures
            final(self).wf(),
            final(self)@ == old(self)@.remove(*k),
            match r {
                Some(v) => old(self)@.contains_key(*k) && v == old(self)@[*k],
                None => !old(self)@.contains_key(*k),
            },
    {
        match self.position(k) {
            Some(i) => {
                proof {
                    lemma_entries_map_value(self.entries@, i as int);
                    lemma_entries_map_remove(self.entries@, i as int);
                }
                let (_, v) = self.entries.remove(i);
                Some(v)
            },
            None => {
                proof {
                    assert(self@.remove(*k) =~= self@);
                }
                None
            },
        }
    }

    /// Removes every entry.
    pub fn clear(&mut self)
        ensures
            final(self).wf(),
            final(self)@ == Map::<K, V>::empty(),
    {
        self.entries.clear();
        proof {
            assert(self.entries@ =~= Seq::<(K, V)>::empty());
        }
    }

    /// The stored keys, each once, in the order in which they were first inserted.
    pub fn keys(&self) -> (r: Vec<K>)
        requires
            self.wf(),
        ensures
            r@.no_duplicates(),
            forall|k: K| r@.contains(k) <==> self@.contains_key(k),
    {
        let mut r: Vec<K> = Vec::new();
        let mut i: usize = 0;
        while i < self.entries.len()
            invariant
                i <= self.entries@.len(),
                self.wf(),
                r@.len() == i,
                forall|j: int| 0 <= j < i ==> #[trigger] r@[j] == self.entries@[j].0,
            decreases self.entries@.len() - i,
        {
            r.push(self.entries[i].0);
            i = i + 1;
        }
        proof {
            assert forall|k: K| r@.contains(k) <==> self@.contains_key(k) by {
                lemma_entries_map_dom(self.entries@, k);
                if r@.contains(k) {
                    let j = choose|j: int| 0 <= j < r@.len() && r@[j] == k;
                    assert(self.entries@[j].0 == k);
                }
                if self@.contains_key(k) {
                    let j = choose|j: int| 0 <= j < self.entries@.len() && #[trigger] self.entries@[j].0 == k;
                    assert(r@[j] == k);
                }
            }
            assert forall|a: int, b: int| 0 <= a < r@.len() && 0 <= b < r@.len() && a != b implies r@[a] != r@[b] by {
                assert(self.entries@[a].0 != self.entries@[b].0);
            }
        }
        r
    }
}

} // verus!
