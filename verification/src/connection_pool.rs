//! The pool of open connections. Pooled connections are associated with a `ConnectionRemover`
//! that removes them from the pool again. The pool is generic in the connection `C`, which is
//! only ever cloned and handed back.

use crate::addr::SocketAddr;
use crate::errors::RecvError;
use crate::key_map::{KeyMap, MapKey};
use vstd::prelude::*;

verus! {

/// A 256-bit name, used as the identifier of a connection.
#[derive(Clone, Copy, Debug, PartialEq, Eq, Hash, PartialOrd, Ord)]
pub struct XorName(pub [u8; 32]);

impl MapKey for XorName {
    fn same(&self, other: &Self) -> (r: bool) {
        let mut i: usize = 0;
        while i < 32
            invariant
                i <= 32,
                forall|j: int| 0 <= j < i ==> self.0@[j] == other.0@[j],
            decreases 32 - i,
        {
            if self.0[i] != other.0[i] {
                return false;
            }
            i = i + 1;
        }
        proof {
            assert(self.0@ =~= other.0@);
            vstd::array::axiom_array_ext_equal(self.0, other.0);
        }
        true
    }
}

/// Unique key of a pooled connection: two connections always have distinct keys, even when
/// they have the same socket address.
#[derive(Clone, Copy, Debug, PartialEq, Eq, Structural)]
pub struct Key {
    /// The peer's address.
    pub addr: SocketAddr,
    /// A number given out by the pool.
    pub id: u64,
}

impl MapKey for Key {
    fn same(&self, other: &Self) -> (r: bool) {
        *self == *other
    }
}

/// Gives out the numbers of keys, counting up and wrapping around.
#[derive(Debug, Clone, Copy, PartialEq, Eq, Structural)]
pub struct IdGen(pub u64);

impl IdGen {
    /// The next number.
    pub fn next(&mut self) -> (r: u64)
        ensures
            r == old(self).0,
            final(self).0 == (if old(self).0 == u64::MAX {
                0
            } else {
                old(self).0 + 1
            }),
    {
        let id = self.0;
        self.0 = self.0.wrapping_add(1);
        id
    }
}

/// Handle for removing a connection from the pool: the key and the id it was stored under.
#[derive(Clone, Copy, Debug, PartialEq, Eq)]
pub struct ConnectionRemover {
    key: Key,
    id: XorName,
}

impl ConnectionRemover {
    /// The key the connection is stored under.
    pub closed spec fn key_of(&self) -> Key {
        self.key
    }

    /// The id the connection is stored under.
    pub closed spec fn id_of(&self) -> XorName {
        self.id
    }

    /// The address of the peer.
    pub fn remote_addr(&self) -> (r: &SocketAddr)
        ensures
            *r == self.key_of().addr,
    {
        &self.key.addr
    }

    /// The id the connection is stored under.
    pub fn id(&self) -> (r: XorName)
        ensures
            r == self.id_of(),
    {
        self.id
    }
}

/// The keys of `m` with address `a`.
pub open spec fn keys_with_addr<V>(m: Map<Key, V>, a: SocketAddr) -> Set<Key> {
    m.dom().filter(|k: Key| k.addr == a)
}

/// `k` is the key of `m` with address `a` that has the least number.
pub open spec fn is_first_key<V>(m: Map<Key, V>, a: SocketAddr, k: Key) -> bool {
    &&& m.dom().contains(k)
    &&& k.addr == a
    &&& forall|k2: Key| #[trigger] m.dom().contains(k2) && k2.addr == a ==> k.id <= k2.id
}

/// `ks` are the keys of `m` with address `a`, each once, by increasing number.
pub open spec fn keys_in_order<V>(m: Map<Key, V>, a: SocketAddr, ks: Seq<Key>) -> bool {
    &&& forall|i: int, j: int| 0 <= i < j < ks.len() ==> ks[i].id < ks[j].id
    &&& forall|i: int| 0 <= i < ks.len() ==> #[trigger] m.dom().contains(ks[i]) && ks[i].addr == a
    &&& forall|k: Key| #[trigger] m.dom().contains(k) && k.addr == a ==> ks.contains(k)
}

/// The ids held by the keys `ks` of `m`.
pub open spec fn ids_of<C>(m: Map<Key, (C, XorName)>, ks: Seq<Key>) -> Set<XorName> {
    Set::new(|id: XorName| exists|i: int| 0 <= i < ks.len() && #[trigger] m[ks[i]].1 == id)
}

/// The pool: connections by id and by key.
#[derive(Debug)]
pub struct ConnectionPool<C> {
    id_map: KeyMap<XorName, (C, Key)>,
    key_map: KeyMap<Key, (C, XorName)>,
    id_gen: IdGen,
}

impl<C: Clone> ConnectionPool<C> {
    /// Connections by id, with their key.
    pub closed spec fn id_view(&self) -> Map<XorName, (C, Key)> {
        self.id_map.view_map()
    }

    /// Connections by key, with their id.
    pub closed spec fn key_view(&self) -> Map<Key, (C, XorName)> {
        self.key_map.view_map()
    }

    /// The number the next key gets.
    pub closed spec fn next_id(&self) -> u64 {
        self.id_gen.0
    }

    /// Well-formed maps.
    pub closed spec fn wf(&self) -> bool {
        self.id_map.wf() && self.key_map.wf()
    }

    /// An empty pool.
    pub fn new() -> (r: ConnectionPool<C>)
        ensures
            r.wf(),
            r.id_view() == Map::<XorName, (C, Key)>::empty(),
            r.key_view() == Map::<Key, (C, XorName)>::empty(),
            r.next_id() == 0,
    {
        ConnectionPool { id_map: KeyMap::new(), key_map: KeyMap::new(), id_gen: IdGen(0) }
    }

    /// Adds a connection to the peer at `addr`, under `id` and a fresh key; returns the handle
    /// that removes it. A connection already stored under `id` is replaced in the id map.
    pub fn insert(&mut self, id: XorName, addr: SocketAddr, conn: C) -> (r: ConnectionRemover)
        requires
            old(self).wf(),
        ensures
            final(self).wf(),
            r.key_of() == (Key { addr, id: old(self).next_id() }),
            r.id_of() == id,
            final(self).next_id() == (if old(self).next_id() == u64::MAX {
                0
            } else {
                old(self).next_id() + 1
            }),
            final(self).key_view() == old(self).key_view().insert(r.key_of(), (conn, id)),
            final(self).id_view().dom() == old(self).id_view().dom().insert(id),
            final(self).id_view()[id].1 == r.key_of(),
            cloned::<C>(conn, final(self).id_view()[id].0),
            forall|i: XorName|
                i != id && #[trigger] old(self).id_view().dom().contains(i) ==> final(self).id_view()[i] == old(self).id_view()[i],
    {
        let key = Key { addr, id: self.id_gen.next() };
        let c2 = conn.clone();
        let _ = self.id_map.insert(id, (c2, key));
        let _ = self.key_map.insert(key, (conn, id));
        ConnectionRemover { key, id }
    }

    /// The position of the entry with address `addr` and the least number, if any.
    fn first_position(&self, addr: &SocketAddr) -> (r: Option<usize>)
        requires
            self.wf(),
        ensures
            r matches Some(i) ==> i < self.key_map.entries_view().len() && is_first_key(
                self.key_view(),
                *addr,
                self.key_map.entries_view()[i as int].0,
            ),
            r is None ==> keys_with_addr(self.key_view(), *addr) == Set::<Key>::empty(),
    {
        proof {
            self.key_map.lemma_view();
        }
        let n = self.key_map.len();
        let mut best: Option<usize> = None;
        let mut i: usize = 0;
        while i < n
            invariant
                self.wf(),
                n == self.key_map.entries_view().len(),
                self.key_view() == crate::key_map::to_map(self.key_map.entries_view()),
                crate::key_map::keys_distinct(self.key_map.entries_view()),
                i <= n,
                best matches Some(b) ==> b < i && self.key_map.entries_view()[b as int].0.addr
                    == *addr,
                best matches Some(b) ==> forall|j: int|
                    0 <= j < i && (#[trigger] self.key_map.entries_view()[j]).0.addr == *addr
                        ==> self.key_map.entries_view()[b as int].0.id <= self.key_map.entries_view()[j].0.id,
                best is None ==> forall|j: int|
                    0 <= j < i ==> (#[trigger] self.key_map.entries_view()[j]).0.addr != *addr,
            decreases n - i,
        {
            let (k, _) = self.key_map.value_at(i);
            if k.addr == *addr {
                match best {
                    None => {
                        best = Some(i);
                    },
                    Some(b) => {
                        let (kb, _) = self.key_map.value_at(b);
                        if k.id < kb.id {
                            best = Some(i);
                        }
                    },
                }
            }
            i = i + 1;
        }
        proof {
            match best {
                Some(b) => {
                    crate::key_map::lemma_to_map_index(self.key_map.entries_view(), b as int);
                    assert forall|k2: Key| #[trigger]
                        self.key_view().dom().contains(k2) && k2.addr == *addr implies self.key_map.entries_view()[b as int].0.id
                        <= k2.id by {
                        crate::key_map::lemma_to_map_dom(self.key_map.entries_view(), k2);
                        let j = choose|j: int|
                            0 <= j < self.key_map.entries_view().len()
                                && self.key_map.entries_view()[j].0 == k2;
                        assert(self.key_map.entries_view()[j].0.addr == *addr);
                    }
                },
                None => {
                    assert forall|k2: Key| !#[trigger] keys_with_addr(self.key_view(), *addr).contains(
                        k2,
                    ) by {
                        crate::key_map::lemma_to_map_dom(self.key_map.entries_view(), k2);
                        if self.key_view().dom().contains(k2) {
                            let j = choose|j: int|
                                0 <= j < self.key_map.entries_view().len()
                                    && self.key_map.entries_view()[j].0 == k2;
                            assert(self.key_map.entries_view()[j].0.addr != *addr);
                        }
                    }
                    assert(keys_with_addr(self.key_view(), *addr) =~= Set::<Key>::empty());
                },
            }
        }
        best
    }

    /// Whether a connection to `addr` is pooled.
    pub fn has_addr(&self, addr: &SocketAddr) -> (r: bool)
        requires
            self.wf(),
        ensures
            r == exists|k: Key| #[trigger] self.key_view().dom().contains(k) && k.addr == *addr,
    {
        let r = self.first_position(addr);
        proof {
            if r is None {
                assert forall|k: Key| !(#[trigger] self.key_view().dom().contains(k) && k.addr
                    == *addr) by {
                    if self.key_view().dom().contains(k) && k.addr == *addr {
                        assert(keys_with_addr(self.key_view(), *addr).contains(k));
                    }
                }
            }
        }
        r.is_some()
    }

    /// Whether a connection with id `id` is pooled.
    pub fn has_id(&self, id: &XorName) -> (r: bool)
        requires
            self.wf(),
        ensures
            r == self.id_view().dom().contains(*id),
    {
        self.id_map.contains_key(id)
    }

    /// The pooled connection with id `id` and the handle that removes it.
    pub fn get_by_id(&self, id: &XorName) -> (r: Option<(C, ConnectionRemover)>)
        requires
            self.wf(),
        ensures
            r is Some <==> self.id_view().dom().contains(*id),
            r matches Some(p) ==> cloned::<C>(self.id_view()[*id].0, p.0) && p.1.key_of()
                == self.id_view()[*id].1 && p.1.id_of() == *id,
    {
        match self.id_map.get(id) {
            Some(entry) => {
                let conn = entry.0.clone();
                Some((conn, ConnectionRemover { key: entry.1, id: *id }))
            },
            None => None,
        }
    }

    /// The pooled connection to `addr` with the least key number, and the handle that
    /// removes it.
    pub fn get_by_addr(&self, addr: &SocketAddr) -> (r: Option<(C, ConnectionRemover)>)
        requires
            self.wf(),
        ensures
            r is None <==> keys_with_addr(self.key_view(), *addr) == Set::<Key>::empty(),
            r matches Some(p) ==> is_first_key(self.key_view(), *addr, p.1.key_of()) && cloned::<C>(
                self.key_view()[p.1.key_of()].0,
                p.0,
            ) && p.1.id_of() == self.key_view()[p.1.key_of()].1,
    {
        match self.first_position(addr) {
            Some(i) => {
                let (k, entry) = self.key_map.value_at(i);
                assert(keys_with_addr(self.key_view(), *addr).contains(*k));
                let conn = entry.0.clone();
                Some((conn, ConnectionRemover { key: *k, id: entry.1 }))
            },
            None => None,
        }
    }

    /// Removes every connection to `addr` from the pool, from both maps; returns them by
    /// increasing key number.
    pub fn remove(&mut self, addr: &SocketAddr) -> (r: Vec<C>)
        requires
            old(self).wf(),
        ensures
            final(self).wf(),
            final(self).next_id() == old(self).next_id(),
            final(self).key_view() == old(self).key_view().restrict(
                old(self).key_view().dom().filter(|k: Key| k.addr != *addr),
            ),
            exists|ks: Seq<Key>|
                #[trigger] keys_in_order(old(self).key_view(), *addr, ks) && r@ == ks.map_values(
                    |k: Key| old(self).key_view()[k].0,
                ) && final(self).id_view() == old(self).id_view().remove_keys(
                    ids_of(old(self).key_view(), ks),
                ),
    {
        let ghost m0 = self.key_view();
        let ghost mut ks: Seq<Key> = Seq::empty();
        let mut out: Vec<C> = Vec::new();
        assert(old(self).id_view().remove_keys(ids_of(m0, ks)) =~= old(self).id_view());
        loop
            invariant
                self.wf(),
                self.id_view() == old(self).id_view().remove_keys(ids_of(m0, ks)),
                self.next_id() == old(self).next_id(),
                m0 == old(self).key_view(),
                self.key_view() == m0.restrict(
                    m0.dom().filter(|k: Key| k.addr != *addr || !ks.contains(k)),
                ),
                forall|i: int, j: int| 0 <= i < j < ks.len() ==> ks[i].id < ks[j].id,
                forall|i: int| 0 <= i < ks.len() ==> #[trigger] m0.dom().contains(ks[i]) && ks[i].addr == *addr,
                forall|k: Key, i: int|
                    0 <= i < ks.len() && #[trigger] self.key_view().dom().contains(k) && k.addr
                        == *addr ==> #[trigger] ks[i].id < k.id,
                out@ == ks.map_values(|k: Key| m0[k].0),
            ensures
                self.wf(),
                self.id_view() == old(self).id_view().remove_keys(ids_of(m0, ks)),
                self.next_id() == old(self).next_id(),
                self.key_view() == m0.restrict(m0.dom().filter(|k: Key| k.addr != *addr)),
                keys_in_order(m0, *addr, ks),
                out@ == ks.map_values(|k: Key| m0[k].0),
            decreases self.key_view().dom().len(),
        {
            proof {
                self.key_map.lemma_view();
            }
            match self.first_position(addr) {
                Some(i) => {
                    let ghost k = self.key_map.entries_view()[i as int].0;
                    let (kr, _) = self.key_map.value_at(i);
                    let key = *kr;
                    let ghost before = self.key_view();
                    let ghost ids_before = self.id_view();
                    let removed = self.key_map.remove(&key);
                    proof {
                        assert(before.dom().contains(k));
                        assert(!ks.contains(k)) by {
                            if ks.contains(k) {
                                let j = choose|j: int| 0 <= j < ks.len() && ks[j] == k;
                                assert(!before.dom().contains(ks[j]));
                            }
                        }
                        assert(before[k] == m0[k]);
                    }
                    match removed {
                        Some((c, id)) => {
                            let _ = self.id_map.remove(&id);
                            out.push(c);
                        },
                        None => {},
                    }
                    proof {
                        let ks2 = ks.push(k);
                        assert forall|i2: int, j2: int| 0 <= i2 < j2 < ks2.len() implies ks2[i2].id
                            < ks2[j2].id by {
                            if j2 == ks.len() {
                                assert(before.dom().contains(k));
                            }
                        }
                        assert forall|k2: Key, i2: int|
                            0 <= i2 < ks2.len() && #[trigger] self.key_view().dom().contains(k2)
                                && k2.addr == *addr implies #[trigger] ks2[i2].id < k2.id by {
                            assert(before.dom().contains(k2));
                            assert(k.id <= k2.id);
                            assert(k2 != k);
                        }
                        assert forall|k3: Key| #[trigger] self.key_view().dom().contains(k3) <==> (m0.dom().contains(k3)
                            && (k3.addr != *addr || !ks2.contains(k3))) by {
                            assert(ks2.contains(k3) <==> (ks.contains(k3) || k3 == k)) by {
                                if ks2.contains(k3) {
                                    let j = choose|j: int| 0 <= j < ks2.len() && ks2[j] == k3;
                                    if j < ks.len() {
                                        assert(ks[j] == k3);
                                    }
                                }
                                if ks.contains(k3) {
                                    let j = choose|j: int| 0 <= j < ks.len() && ks[j] == k3;
                                    assert(ks2[j] == k3);
                                }
                                if k3 == k {
                                    assert(ks2[ks.len() as int] == k3);
                                }
                            }
                        }
                        assert(ids_of(m0, ks2) =~= ids_of(m0, ks).insert(m0[k].1)) by {
                            assert forall|id: XorName| ids_of(m0, ks2).contains(id) implies ids_of(
                                m0,
                                ks,
                            ).insert(m0[k].1).contains(id) by {
                                let i = choose|i: int| 0 <= i < ks2.len() && #[trigger] m0[ks2[i]].1 == id;
                                if i < ks.len() {
                                    assert(ks2[i] == ks[i]);
                                    assert(m0[ks[i]].1 == id);
                                }
                            }
                            assert forall|id: XorName| ids_of(m0, ks).insert(m0[k].1).contains(id) implies ids_of(
                                m0,
                                ks2,
                            ).contains(id) by {
                                if id == m0[k].1 {
                                    assert(ks2[ks.len() as int] == k);
                                    assert(m0[ks2[ks.len() as int]].1 == id);
                                } else {
                                    let i = choose|i: int| 0 <= i < ks.len() && #[trigger] m0[ks[i]].1 == id;
                                    assert(ks2[i] == ks[i]);
                                    assert(m0[ks2[i]].1 == id);
                                }
                            }
                        }
                        assert(self.id_view() =~= old(self).id_view().remove_keys(ids_of(m0, ks2)));
                        ks = ks2;
                        assert(self.key_view() =~= m0.restrict(
                            m0.dom().filter(|k3: Key| k3.addr != *addr || !ks.contains(k3)),
                        ));
                        assert(out@ =~= ks.map_values(|k3: Key| m0[k3].0));
                        self.key_map.lemma_view();
                        assert(before.dom().len() == self.key_view().dom().len() + 1) by {
                            assert(self.key_view().dom() =~= before.dom().remove(k));
                        }
                    }
                },
                None => {
                    proof {
                        assert forall|k: Key| #[trigger] m0.dom().contains(k) && k.addr == *addr
                            implies ks.contains(k) by {
                            if !ks.contains(k) {
                                assert(self.key_view().dom().contains(k));
                                assert(keys_with_addr(self.key_view(), *addr).contains(k));
                            }
                        }
                        assert(keys_in_order(m0, *addr, ks));
                        assert(self.key_view() =~= m0.restrict(
                            m0.dom().filter(|k: Key| k.addr != *addr),
                        ));
                    }
                    break ;
                },
            }
        }
        out
    }

    /// Removes the connection of a handle from both maps.
    pub fn remove_handle(&mut self, remover: &ConnectionRemover)
        requires
            old(self).wf(),
        ensures
            final(self).wf(),
            final(self).key_view() == old(self).key_view().remove(remover.key_of()),
            final(self).id_view() == old(self).id_view().remove(remover.id_of()),
            final(self).next_id() == old(self).next_id(),
    {
        let _ = self.key_map.remove(&remover.key);
        let _ = self.id_map.remove(&remover.id);
    }

    /// The outcome of an operation on a pooled connection: a failed one takes the connection
    /// out of the pool. The outcome is handed back as it is.
    pub fn handle_error<T, E>(&mut self, remover: &ConnectionRemover, result: Result<T, E>) -> (r: Result<T, E>)
        requires
            old(self).wf(),
        ensures
            final(self).wf(),
            r == result,
            final(self).next_id() == old(self).next_id(),
            result is Err ==> final(self).key_view() == old(self).key_view().remove(remover.key_of())
                && final(self).id_view() == old(self).id_view().remove(remover.id_of()),
            result is Ok ==> final(self).key_view() == old(self).key_view() && final(self).id_view()
                == old(self).id_view(),
    {
        if result.is_err() {
            self.remove_handle(remover);
        }
        result
    }

    /// The outcome of reading from a pooled connection: one that lost the connection takes the
    /// connection out of the pool. The outcome is handed back as it is.
    pub fn handle_recv_result<T>(&mut self, remover: &ConnectionRemover, result: Result<T, RecvError>) -> (r: Result<
        T,
        RecvError,
    >)
        requires
            old(self).wf(),
        ensures
            final(self).wf(),
            r == result,
            final(self).next_id() == old(self).next_id(),
            result matches Err(RecvError::ConnectionLost(_)) ==> final(self).key_view() == old(
                self,
            ).key_view().remove(remover.key_of()) && final(self).id_view() == old(self).id_view().remove(
                remover.id_of(),
            ),
            !(result matches Err(RecvError::ConnectionLost(_))) ==> final(self).key_view() == old(
                self,
            ).key_view() && final(self).id_view() == old(self).id_view(),
    {
        let lost = match &result {
            Err(RecvError::ConnectionLost(_)) => true,
            _ => false,
        };
        if lost {
            self.remove_handle(remover);
        }
        result
    }
}


/// A connection that was just pooled is found by its address; when it is the only one to its
/// address, it is the one `get_by_addr` returns.
pub proof fn law_inserted_found_by_addr<C>(m: Map<Key, (C, XorName)>, k: Key, v: (C, XorName))
    requires
        !m.dom().contains(k),
    ensures
        exists|k2: Key| #[trigger] m.insert(k, v).dom().contains(k2) && k2.addr == k.addr,
        keys_with_addr(m, k.addr) == Set::<Key>::empty() ==> is_first_key(m.insert(k, v), k.addr, k),
{
    assert(m.insert(k, v).dom().contains(k));
    if keys_with_addr(m, k.addr) == Set::<Key>::empty() {
        assert forall|k2: Key| #[trigger] m.insert(k, v).dom().contains(k2) && k2.addr == k.addr
            implies k.id <= k2.id by {
            if k2 != k {
                assert(keys_with_addr(m, k.addr).contains(k2));
            }
        }
    }
}

/// After removing the connections to an address, none to it is left.
pub proof fn law_removed_addr_gone<C>(m: Map<Key, (C, XorName)>, a: SocketAddr)
    ensures
        keys_with_addr(m.restrict(m.dom().filter(|k: Key| k.addr != a)), a) == Set::<Key>::empty(),
{
    assert(keys_with_addr(m.restrict(m.dom().filter(|k: Key| k.addr != a)), a) =~= Set::<Key>::empty());
}

/// Two connections pooled one after the other get distinct keys, unless the key counter
/// wrapped around between them.
pub proof fn law_successive_keys_distinct(a1: SocketAddr, a2: SocketAddr, n: u64)
    requires
        n < u64::MAX,
    ensures
        (Key { addr: a1, id: n }) != (Key { addr: a2, id: (n + 1) as u64 }),
{
}

/// Once the connections to an address are removed, none of their ids is found in the pool:
/// removing from the id map the ids of the keys removed leaves none of those keys' ids.
pub proof fn law_removed_ids_gone<C>(
    ids: Map<XorName, (C, Key)>,
    m: Map<Key, (C, XorName)>,
    a: SocketAddr,
    ks: Seq<Key>,
    k: Key,
)
    requires
        keys_in_order(m, a, ks),
        m.dom().contains(k),
        k.addr == a,
    ensures
        !ids.remove_keys(ids_of(m, ks)).dom().contains(m[k].1),
{
    assert(ks.contains(k));
    let i = choose|i: int| 0 <= i < ks.len() && ks[i] == k;
    assert(m[ks[i]].1 == m[k].1);
    assert(ids_of(m, ks).contains(m[k].1));
}

/// Two connections pooled one after the other to the same address, with no other connection
/// to it, get distinct keys; the first one pooled is the one found by address, and removing the
/// address takes both, the first one first.
pub proof fn law_two_connections_to_one_address<C>(
    m: Map<Key, (C, XorName)>,
    a: SocketAddr,
    n: u64,
    v1: (C, XorName),
    v2: (C, XorName),
)
    requires
        keys_with_addr(m, a) == Set::<Key>::empty(),
        n < u64::MAX,
    ensures
        ({
            let k1 = Key { addr: a, id: n };
            let k2 = Key { addr: a, id: (n + 1) as u64 };
            let m2 = m.insert(k1, v1).insert(k2, v2);
            &&& k1 != k2
            &&& is_first_key(m2, a, k1)
            &&& keys_in_order(m2, a, seq![k1, k2])
            &&& m2[k1] == v1 && m2[k2] == v2
        }),
{
    let k1 = Key { addr: a, id: n };
    let k2 = Key { addr: a, id: (n + 1) as u64 };
    let m2 = m.insert(k1, v1).insert(k2, v2);
    assert forall|k: Key| #[trigger] m2.dom().contains(k) && k.addr == a implies k == k1 || k == k2 by {
        if k != k1 && k != k2 {
            assert(m.dom().contains(k));
            assert(keys_with_addr(m, a).contains(k));
        }
    }
    let ks = seq![k1, k2];
    assert forall|k: Key| #[trigger] m2.dom().contains(k) && k.addr == a implies ks.contains(k) by {
        if k == k1 {
            assert(ks[0] == k1);
        } else {
            assert(ks[1] == k2);
        }
    }
}

} // verus!
