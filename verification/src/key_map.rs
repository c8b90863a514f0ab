//! A map held as a list of entries with distinct keys.

use crate::addr::SocketAddr;
use vstd::prelude::*;

verus! {

/// Keys whose equality can be decided.
pub trait MapKey: Copy + Sized {
    /// Whether two keys are the same.
    fn same(&self, other: &Self) -> (r: bool)
        ensures
            r == (*self == *other),
    ;
}

impl MapKey for SocketAddr {
    fn same(&self, other: &Self) -> (r: bool) {
        *self == *other
    }
}

impl MapKey for u64 {
    fn same(&self, other: &Self) -> (r: bool) {
        *self == *other
    }
}

/// The map that a list of entries stands for: later entries override earlier ones.
pub open spec fn to_map<K, V>(s: Seq<(K, V)>) -> Map<K, V>
    decreases s.len(),
{
    if s.len() == 0 {
        Map::empty()
    } else {
        to_map(s.drop_last()).insert(s.last().0, s.last().1)
    }
}

/// No key occurs twice.
pub open spec fn keys_distinct<K, V>(s: Seq<(K, V)>) -> bool {
    forall|i: int, j: int| 0 <= i < s.len() && 0 <= j < s.len() && i != j ==> s[i].0 != s[j].0
}

/// The keys of the list are the keys of the map.
pub proof fn lemma_to_map_dom<K, V>(s: Seq<(K, V)>, k: K)
    ensures
        to_map(s).dom().contains(k) <==> exists|i: int| 0 <= i < s.len() && s[i].0 == k,
        to_map(s).dom().finite(),
    decreases s.len(),
{
    if s.len() > 0 {
        lemma_to_map_dom(s.drop_last(), k);
        if to_map(s.drop_last()).dom().contains(k) {
            let i = choose|i: int| 0 <= i < s.drop_last().len() && s.drop_last()[i].0 == k;
            assert(s[i].0 == k);
        }
        if exists|i: int| 0 <= i < s.len() && s[i].0 == k {
            let i = choose|i: int| 0 <= i < s.len() && s[i].0 == k;
            if i < s.len() - 1 {
                assert(s.drop_last()[i].0 == k);
            }
        }
    }
}

/// With distinct keys, each entry is what the map holds for its key.
pub proof fn lemma_to_map_index<K, V>(s: Seq<(K, V)>, i: int)
    requires
        keys_distinct(s),
        0 <= i < s.len(),
    ensures
        to_map(s).dom().contains(s[i].0),
        to_map(s)[s[i].0] == s[i].1,
    decreases s.len(),
{
    if i < s.len() - 1 {
        let t = s.drop_last();
        assert(keys_distinct(t));
        assert(t[i] == s[i]);
        lemma_to_map_index(t, i);
        assert(s.last().0 != s[i].0);
    }
}

/// Replacing the value of an entry replaces the value of its key.
pub proof fn lemma_to_map_update<K, V>(s: Seq<(K, V)>, i: int, v: V)
    requires
        keys_distinct(s),
        0 <= i < s.len(),
    ensures
        keys_distinct(s.update(i, (s[i].0, v))),
        to_map(s.update(i, (s[i].0, v))) == to_map(s).insert(s[i].0, v),
{
    let t = s.update(i, (s[i].0, v));
    assert(keys_distinct(t)) by {
        assert forall|a: int, b: int| 0 <= a < t.len() && 0 <= b < t.len() && a != b implies t[a].0
            != t[b].0 by {
            assert(t[a].0 == s[a].0);
            assert(t[b].0 == s[b].0);
        }
    }
    assert forall|k: K| #[trigger] to_map(t).dom().contains(k) <==> to_map(s).insert(
        s[i].0,
        v,
    ).dom().contains(k) by {
        lemma_to_map_dom(t, k);
        lemma_to_map_dom(s, k);
        if exists|j: int| 0 <= j < t.len() && t[j].0 == k {
            let j = choose|j: int| 0 <= j < t.len() && t[j].0 == k;
            assert(s[j].0 == k);
        }
        if exists|j: int| 0 <= j < s.len() && s[j].0 == k {
            let j = choose|j: int| 0 <= j < s.len() && s[j].0 == k;
            assert(t[j].0 == k);
        }
        if k == s[i].0 {
            assert(t[i].0 == k);
        }
    }
    assert forall|k: K| #[trigger] to_map(t).dom().contains(k) implies to_map(t)[k]
        == to_map(s).insert(s[i].0, v)[k] by {
        lemma_to_map_dom(t, k);
        let j = choose|j: int| 0 <= j < t.len() && t[j].0 == k;
        lemma_to_map_index(t, j);
        if j != i {
            lemma_to_map_index(s, j);
            assert(t[j] == s[j]);
        }
    }
    assert(to_map(t) =~= to_map(s).insert(s[i].0, v));
}

/// Adding an entry for a new key adds it to the map.
pub proof fn lemma_to_map_push<K, V>(s: Seq<(K, V)>, k: K, v: V)
    requires
        keys_distinct(s),
        !to_map(s).dom().contains(k),
    ensures
        keys_distinct(s.push((k, v))),
        to_map(s.push((k, v))) == to_map(s).insert(k, v),
{
    let t = s.push((k, v));
    assert(t.drop_last() =~= s);
    assert forall|a: int, b: int| 0 <= a < t.len() && 0 <= b < t.len() && a != b implies t[a].0
        != t[b].0 by {
        if a < s.len() && b < s.len() {
            assert(t[a] == s[a] && t[b] == s[b]);
        } else if a < s.len() {
            lemma_to_map_dom(s, k);
            assert(t[a] == s[a]);
        } else {
            lemma_to_map_dom(s, k);
            assert(t[b] == s[b]);
        }
    }
}

/// Removing the entry of a key removes the key from the map.
pub proof fn lemma_to_map_remove<K, V>(s: Seq<(K, V)>, i: int)
    requires
        keys_distinct(s),
        0 <= i < s.len(),
    ensures
        keys_distinct(s.remove(i)),
        to_map(s.remove(i)) == to_map(s).remove(s[i].0),
{
    let t = s.remove(i);
    assert(forall|j: int| 0 <= j < t.len() ==> #[trigger] t[j] == if j < i {
        s[j]
    } else {
        s[j + 1]
    });
    assert(keys_distinct(t)) by {
        assert forall|a: int, b: int| 0 <= a < t.len() && 0 <= b < t.len() && a != b implies t[a].0
            != t[b].0 by {
            let sa = if a < i { a } else { a + 1 };
            let sb = if b < i { b } else { b + 1 };
            assert(t[a] == s[sa]);
            assert(t[b] == s[sb]);
        }
    }
    assert forall|k: K| #[trigger] to_map(t).dom().contains(k) <==> to_map(s).remove(
        s[i].0,
    ).dom().contains(k) by {
        lemma_to_map_dom(t, k);
        lemma_to_map_dom(s, k);
        if exists|j: int| 0 <= j < t.len() && t[j].0 == k {
            let j = choose|j: int| 0 <= j < t.len() && t[j].0 == k;
            let sj = if j < i { j } else { j + 1 };
            assert(t[j] == s[sj]);
            assert(sj != i);
        }
        if k != s[i].0 && exists|j: int| 0 <= j < s.len() && s[j].0 == k {
            let j = choose|j: int| 0 <= j < s.len() && s[j].0 == k;
            assert(j != i);
            let tj = if j < i { j } else { j - 1 };
            assert(t[tj] == s[j]);
        }
    }
    assert forall|k: K| #[trigger] to_map(t).dom().contains(k) implies to_map(t)[k]
        == to_map(s).remove(s[i].0)[k] by {
        lemma_to_map_dom(t, k);
        let j = choose|j: int| 0 <= j < t.len() && t[j].0 == k;
        lemma_to_map_index(t, j);
        let sj = if j < i { j } else { j + 1 };
        assert(t[j] == s[sj]);
        lemma_to_map_index(s, sj);
    }
    assert(to_map(t) =~= to_map(s).remove(s[i].0));
}

/// A map held as a list of entries with distinct keys.
#[derive(Debug)]
pub struct KeyMap<K, V> {
    entries: Vec<(K, V)>,
}

/// A map keyed by socket address.
pub type AddrMap<V> = KeyMap<SocketAddr, V>;

impl<K: MapKey, V> KeyMap<K, V> {
    /// The map held.
    pub closed spec fn view_map(&self) -> Map<K, V> {
        to_map(self.entries@)
    }

    /// The entries in the order they were first added.
    pub closed spec fn entries_view(&self) -> Seq<(K, V)> {
        self.entries@
    }

    /// Well-formed: keys are distinct.
    pub closed spec fn wf(&self) -> bool {
        keys_distinct(self.entries@)
    }

    /// The entries stand for the map.
    pub proof fn lemma_view(&self)
        requires
            self.wf(),
        ensures
            self.view_map() == to_map(self.entries_view()),
            keys_distinct(self.entries_view()),
            self.view_map().dom().finite(),
            self.view_map().dom().len() == self.entries_view().len(),
    {
        self.lemma_dom_len(self.entries@);
        lemma_to_map_dom(self.entries@, arbitrary());
    }

    proof fn lemma_dom_len(&self, s: Seq<(K, V)>)
        requires
            keys_distinct(s),
        ensures
            to_map(s).dom().finite(),
            to_map(s).dom().len() == s.len(),
        decreases s.len(),
    {
        lemma_to_map_dom(s, arbitrary());
        if s.len() > 0 {
            let t = s.drop_last();
            assert(keys_distinct(t));
            self.lemma_dom_len(t);
            lemma_to_map_dom(t, s.last().0);
            if to_map(t).dom().contains(s.last().0) {
                let j = choose|j: int| 0 <= j < t.len() && t[j].0 == s.last().0;
                assert(s[j].0 == s[s.len() - 1].0);
            }
            assert(to_map(s).dom() =~= to_map(t).dom().insert(s.last().0));
        }
    }

    /// An empty map.
    pub fn new() -> (r: KeyMap<K, V>)
        ensures
            r.wf(),
            r.view_map() == Map::<K, V>::empty(),
            r.entries_view() == Seq::<(K, V)>::empty(),
    {
        KeyMap { entries: Vec::new() }
    }

    /// The number of entries.
    pub fn len(&self) -> (r: usize)
        requires
            self.wf(),
        ensures
            r == self.view_map().dom().len(),
            r == self.entries_view().len(),
    {
        proof {
            self.lemma_view();
        }
        self.entries.len()
    }

    /// The position of the entry for `k`.
    fn position(&self, k: &K) -> (r: Option<usize>)
        requires
            self.wf(),
        ensures
            r matches Some(i) ==> i < self.entries@.len() && self.entries@[i as int].0 == *k,
            r is None ==> !self.view_map().dom().contains(*k),
            r is Some <==> self.view_map().dom().contains(*k),
    {
        proof {
            lemma_to_map_dom(self.entries@, *k);
        }
        let mut i: usize = 0;
        while i < self.entries.len()
            invariant
                i <= self.entries@.len(),
                self.wf(),
                forall|j: int| 0 <= j < i ==> self.entries@[j].0 != *k,
            decreases self.entries@.len() - i,
        {
            if self.entries[i].0.same(k) {
                proof {
                    lemma_to_map_index(self.entries@, i as int);
                }
                return Some(i);
            }
            i = i + 1;
        }
        None
    }

    /// Whether `k` has an entry.
    pub fn contains_key(&self, k: &K) -> (r: bool)
        requires
            self.wf(),
        ensures
            r == self.view_map().dom().contains(*k),
    {
        self.position(k).is_some()
    }

    /// The value for `k`.
    pub fn get(&self, k: &K) -> (r: Option<&V>)
        requires
            self.wf(),
        ensures
            r matches Some(v) ==> self.view_map().dom().contains(*k) && *v == self.view_map()[*k],
            r is None ==> !self.view_map().dom().contains(*k),
    {
        match self.position(k) {
            Some(i) => {
                proof {
                    lemma_to_map_index(self.entries@, i as int);
                }
                Some(&self.entries[i].1)
            },
            None => None,
        }
    }

    /// Sets the value for `k`; returns the value it replaced. A new key is added last.
    pub fn insert(&mut self, k: K, v: V) -> (r: Option<V>)
        requires
            old(self).wf(),
        ensures
            final(self).wf(),
            final(self).view_map() == old(self).view_map().insert(k, v),
            r matches Some(o) ==> old(self).view_map().dom().contains(k) && o == old(self).view_map()[k],
            r is None ==> !old(self).view_map().dom().contains(k),
            !old(self).view_map().dom().contains(k) ==> final(self).entries_view() == old(
                self,
            ).entries_view().push((k, v)),
    {
        match self.position(&k) {
            Some(i) => {
                proof {
                    lemma_to_map_index(self.entries@, i as int);
                    lemma_to_map_update(self.entries@, i as int, v);
                }
                let ghost before = self.entries@;
                let (_, old_v) = self.entries.remove(i);
                self.entries.insert(i, (k, v));
                assert(self.entries@ =~= before.update(i as int, (before[i as int].0, v)));
                Some(old_v)
            },
            None => {
                proof {
                    lemma_to_map_push(self.entries@, k, v);
                }
                self.entries.push((k, v));
                None
            },
        }
    }

    /// Removes the entry for `k`; returns its value.
    pub fn remove(&mut self, k: &K) -> (r: Option<V>)
        requires
            old(self).wf(),
        ensures
            final(self).wf(),
            final(self).view_map() == old(self).view_map().remove(*k),
            r matches Some(o) ==> old(self).view_map().dom().contains(*k) && o == old(self).view_map()[*k],
            r is None ==> !old(self).view_map().dom().contains(*k) && final(self).entries_view()
                == old(self).entries_view(),
    {
        match self.position(k) {
            Some(i) => {
                proof {
                    lemma_to_map_index(self.entries@, i as int);
                    lemma_to_map_remove(self.entries@, i as int);
                }
                let (_, v) = self.entries.remove(i);
                Some(v)
            },
            None => {
                assert(old(self).view_map().remove(*k) =~= old(self).view_map());
                None
            },
        }
    }

    /// The keys, in the order the entries were first added.
    pub fn keys(&self) -> (r: Vec<K>)
        requires
            self.wf(),
        ensures
            r@ == self.entries_view().map_values(|e: (K, V)| e.0),
            forall|k: K| #[trigger] r@.contains(k) <==> self.view_map().dom().contains(k),
            r@.no_duplicates(),
    {
        let mut r: Vec<K> = Vec::new();
        let mut i: usize = 0;
        while i < self.entries.len()
            invariant
                i <= self.entries@.len(),
                r@ == self.entries@.subrange(0, i as int).map_values(|e: (K, V)| e.0),
                keys_distinct(self.entries@),
            decreases self.entries@.len() - i,
        {
            r.push(self.entries[i].0);
            i = i + 1;
            assert(r@ =~= self.entries@.subrange(0, i as int).map_values(|e: (K, V)| e.0));
        }
        assert(self.entries@.subrange(0, i as int) =~= self.entries@);
        assert forall|a: int, b: int| 0 <= a < r@.len() && 0 <= b < r@.len() && a != b implies r@[a]
            != r@[b] by {
            assert(r@[a] == self.entries@[a].0);
            assert(r@[b] == self.entries@[b].0);
        }
        assert forall|k: K| #[trigger] r@.contains(k) <==> self.view_map().dom().contains(
            k,
        ) by {
            lemma_to_map_dom(self.entries@, k);
            if r@.contains(k) {
                let j = choose|j: int| 0 <= j < r@.len() && r@[j] == k;
                assert(self.entries@[j].0 == k);
            }
            if self.view_map().dom().contains(k) {
                let j = choose|j: int| 0 <= j < self.entries@.len() && self.entries@[j].0 == k;
                assert(r@[j] == k);
            }
        }
        r
    }

    /// The value of the entry at position `i`.
    pub fn value_at(&self, i: usize) -> (r: (&K, &V))
        requires
            self.wf(),
            i < self.entries_view().len(),
        ensures
            *r.0 == self.entries_view()[i as int].0,
            *r.1 == self.entries_view()[i as int].1,
            self.view_map().dom().contains(*r.0),
            self.view_map()[*r.0] == *r.1,
    {
        proof {
            lemma_to_map_index(self.entries@, i as int);
        }
        (&self.entries[i].0, &self.entries[i].1)
    }

    /// Removes and returns all entries, in order.
    pub fn drain(&mut self) -> (r: Vec<(K, V)>)
        requires
            old(self).wf(),
        ensures
            final(self).wf(),
            final(self).view_map() == Map::<K, V>::empty(),
            r@ == old(self).entries_view(),
    {
        let mut r = Vec::new();
        std::mem::swap(&mut r, &mut self.entries);
        assert(keys_distinct(self.entries@));
        r
    }
}

} // verus!
