//! A very simple LRU-like cache of peers to bootstrap off, written to disk every 10 new peers.

use crate::addr::SocketAddr;
use std::collections::VecDeque;
use vstd::prelude::*;

verus! {

/// Maximum peers in the cache.
pub const MAX_CACHE_SIZE: usize = 200;

/// The number of new peers after which the cache is written to disk.
pub const SYNC_EVERY: u8 = 10;

/// The position of the first occurrence of `x` in `s` (the length of `s` when it is absent).
pub open spec fn first_index(s: Seq<SocketAddr>, x: SocketAddr) -> int
    decreases s.len(),
{
    if s.len() == 0 {
        0
    } else if s[0] == x {
        0
    } else {
        1 + first_index(s.drop_first(), x)
    }
}

/// `s` with `x` moved from its first occurrence to the top (the back).
pub open spec fn moved_to_top(s: Seq<SocketAddr>, x: SocketAddr) -> Seq<SocketAddr> {
    s.remove(first_index(s, x)).push(x)
}

/// `s` with the new peer `x` added at the top, dropping the oldest peer when over capacity.
pub open spec fn inserted_new(s: Seq<SocketAddr>, x: SocketAddr) -> Seq<SocketAddr> {
    if s.len() + 1 > MAX_CACHE_SIZE {
        s.push(x).drop_first()
    } else {
        s.push(x)
    }
}

/// The cached peers after `add_peer(x)`.
pub open spec fn peers_after_add(
    peers: Seq<SocketAddr>,
    hard_coded: Seq<SocketAddr>,
    x: SocketAddr,
) -> Seq<SocketAddr> {
    if hard_coded.contains(x) {
        peers
    } else if peers.contains(x) {
        moved_to_top(peers, x)
    } else {
        inserted_new(peers, x)
    }
}

/// The first occurrence is where `first_index` says.
pub proof fn lemma_first_index(s: Seq<SocketAddr>, x: SocketAddr)
    ensures
        0 <= first_index(s, x) <= s.len(),
        forall|j: int| 0 <= j < first_index(s, x) ==> s[j] != x,
        s.contains(x) ==> first_index(s, x) < s.len() && s[first_index(s, x)] == x,
        !s.contains(x) ==> first_index(s, x) == s.len(),
    decreases s.len(),
{
    if s.len() > 0 && s[0] != x {
        let t = s.drop_first();
        lemma_first_index(t, x);
        assert forall|j: int| 0 <= j < first_index(s, x) implies s[j] != x by {
            if j > 0 {
                assert(s[j] == t[j - 1]);
            }
        }
        if s.contains(x) {
            let i = choose|i: int| 0 <= i < s.len() && s[i] == x;
            assert(t[i - 1] == x);
        }
        if t.contains(x) {
            let i = choose|i: int| 0 <= i < t.len() && t[i] == x;
            assert(s[i + 1] == x);
        }
    } else if s.len() > 0 {
        assert(s.contains(x)) by {
            assert(s[0] == x);
        }
    }
}

/// No address occurs twice in `s`.
pub open spec fn no_duplicates(s: Seq<SocketAddr>) -> bool {
    forall|i: int, j: int| 0 <= i < s.len() && 0 <= j < s.len() && i != j ==> s[i] != s[j]
}

/// No element of `s` is in `t`.
pub open spec fn disjoint(s: Seq<SocketAddr>, t: Seq<SocketAddr>) -> bool {
    forall|i: int| 0 <= i < s.len() ==> !t.contains(#[trigger] s[i])
}

/// Elements of `moved_to_top` come from the given sequence or are the moved address.
proof fn lemma_moved_to_top_elems(s: Seq<SocketAddr>, x: SocketAddr)
    requires
        s.contains(x),
    ensures
        moved_to_top(s, x).len() == s.len(),
        moved_to_top(s, x).last() == x,
        forall|i: int|
            0 <= i < moved_to_top(s, x).len() ==> s.contains(#[trigger] moved_to_top(s, x)[i]),
{
    lemma_first_index(s, x);
    let k = first_index(s, x);
    let r = s.remove(k);
    assert forall|i: int| 0 <= i < moved_to_top(s, x).len() implies s.contains(
        #[trigger] moved_to_top(s, x)[i],
    ) by {
        if i < r.len() {
            if i < k {
                assert(r[i] == s[i]);
            } else {
                assert(r[i] == s[i + 1]);
            }
        }
    }
}

/// Moving a cached peer to the top keeps the cache's size and puts the peer on top; every other
/// peer stays, and any two other peers keep the order they had.
pub proof fn law_move_to_top_keeps_the_others_in_order(s: Seq<SocketAddr>, x: SocketAddr)
    requires
        s.contains(x),
    ensures
        moved_to_top(s, x).len() == s.len(),
        moved_to_top(s, x).last() == x,
        forall|i: int|
            0 <= i < s.len() && #[trigger] s[i] != x ==> exists|i2: int|
                0 <= i2 < s.len() - 1 && #[trigger] moved_to_top(s, x)[i2] == s[i],
        forall|i: int, j: int|
            #![trigger s[i], s[j]]
            0 <= i < j < s.len() && s[i] != x && s[j] != x ==> exists|i2: int, j2: int|
                #![trigger moved_to_top(s, x)[i2], moved_to_top(s, x)[j2]]
                0 <= i2 < j2 < s.len() - 1 && moved_to_top(s, x)[i2] == s[i] && moved_to_top(s, x)[j2]
                    == s[j],
{
    lemma_first_index(s, x);
    let k = first_index(s, x);
    let q = s.remove(k);
    let r = moved_to_top(s, x);
    assert(r =~= q.push(x));
    assert forall|i: int| 0 <= i < s.len() && #[trigger] s[i] != x implies exists|i2: int|
        0 <= i2 < s.len() - 1 && #[trigger] moved_to_top(s, x)[i2] == s[i] by {
        let i2 = if i < k { i } else { i - 1 };
        assert(i != k);
        assert(r[i2] == q[i2]);
    }
    assert forall|i: int, j: int|
        #![trigger s[i], s[j]]
        0 <= i < j < s.len() && s[i] != x && s[j] != x implies exists|i2: int, j2: int|
            #![trigger moved_to_top(s, x)[i2], moved_to_top(s, x)[j2]]
            0 <= i2 < j2 < s.len() - 1 && moved_to_top(s, x)[i2] == s[i] && moved_to_top(s, x)[j2]
                == s[j] by {
        assert(i != k && j != k);
        let i2 = if i < k { i } else { i - 1 };
        let j2 = if j < k { j } else { j - 1 };
        assert(r[i2] == q[i2]);
        assert(r[j2] == q[j2]);
    }
}

/// A peer that is a hard-coded contact is never cached: adding any peer to a cache that holds
/// no hard-coded contact leaves it holding none.
pub proof fn law_hard_coded_never_cached(
    peers: Seq<SocketAddr>,
    hard_coded: Seq<SocketAddr>,
    x: SocketAddr,
)
    requires
        disjoint(peers, hard_coded),
    ensures
        disjoint(peers_after_add(peers, hard_coded, x), hard_coded),
{
    let r = peers_after_add(peers, hard_coded, x);
    if hard_coded.contains(x) {
    } else if peers.contains(x) {
        lemma_moved_to_top_elems(peers, x);
        assert forall|i: int| 0 <= i < r.len() implies !hard_coded.contains(#[trigger] r[i]) by {
            let j = choose|j: int| 0 <= j < peers.len() && peers[j] == r[i];
            assert(!hard_coded.contains(peers[j]));
        }
    } else {
        let p = peers.push(x);
        assert forall|i: int| 0 <= i < r.len() implies !hard_coded.contains(#[trigger] r[i]) by {
            if peers.len() + 1 > MAX_CACHE_SIZE {
                assert(r[i] == p[i + 1]);
                if i + 1 < peers.len() {
                    assert(p[i + 1] == peers[i + 1]);
                }
            } else if i < peers.len() {
                assert(r[i] == peers[i]);
            }
        }
    }
}

/// The cache never grows beyond `MAX_CACHE_SIZE` peers, and adding a peer never shrinks it.
pub proof fn law_cache_size_capped(
    peers: Seq<SocketAddr>,
    hard_coded: Seq<SocketAddr>,
    x: SocketAddr,
)
    requires
        peers.len() <= MAX_CACHE_SIZE,
    ensures
        peers_after_add(peers, hard_coded, x).len() <= MAX_CACHE_SIZE,
        peers_after_add(peers, hard_coded, x).len() >= peers.len(),
{
    if !hard_coded.contains(x) && peers.contains(x) {
        lemma_moved_to_top_elems(peers, x);
    }
}

/// A peer that is not a hard-coded contact is at the top of the cache once added.
pub proof fn law_added_peer_on_top(peers: Seq<SocketAddr>, hard_coded: Seq<SocketAddr>, x: SocketAddr)
    requires
        !hard_coded.contains(x),
    ensures
        peers_after_add(peers, hard_coded, x).len() > 0,
        peers_after_add(peers, hard_coded, x).last() == x,
{
    if peers.contains(x) {
        lemma_moved_to_top_elems(peers, x);
    }
}

/// A cache without duplicates stays without duplicates.
pub proof fn law_no_duplicates_kept(peers: Seq<SocketAddr>, hard_coded: Seq<SocketAddr>, x: SocketAddr)
    requires
        no_duplicates(peers),
    ensures
        no_duplicates(peers_after_add(peers, hard_coded, x)),
{
    let r = peers_after_add(peers, hard_coded, x);
    if hard_coded.contains(x) {
    } else if peers.contains(x) {
        lemma_first_index(peers, x);
        let k = first_index(peers, x);
        let q = peers.remove(k);
        assert forall|i: int| 0 <= i < q.len() implies #[trigger] q[i] != x by {
            if i < k {
                assert(q[i] == peers[i]);
            } else {
                assert(q[i] == peers[i + 1]);
            }
        }
        assert forall|i: int, j: int| 0 <= i < r.len() && 0 <= j < r.len() && i != j implies r[i]
            != r[j] by {
            if i < q.len() && j < q.len() {
                let pi = if i < k { i } else { i + 1 };
                let pj = if j < k { j } else { j + 1 };
                assert(q[i] == peers[pi]);
                assert(q[j] == peers[pj]);
            } else if i < q.len() {
                assert(r[i] == q[i]);
            } else if j < q.len() {
                assert(r[j] == q[j]);
            }
        }
    } else {
        let p = peers.push(x);
        assert forall|i: int, j: int| 0 <= i < p.len() && 0 <= j < p.len() && i != j implies p[i]
            != p[j] by {
            if i < peers.len() && j < peers.len() {
            } else if i < peers.len() {
                assert(peers.contains(p[i]));
            } else if j < peers.len() {
                assert(peers.contains(p[j]));
            }
        }
        if peers.len() + 1 > MAX_CACHE_SIZE {
            assert forall|i: int, j: int| 0 <= i < r.len() && 0 <= j < r.len() && i != j implies r[i]
                != r[j] by {
                assert(r[i] == p[i + 1]);
                assert(r[j] == p[j + 1]);
            }
        }
    }
}

/// One `add_peer(x)` on a cache holding `peers` that has counted `count` new peers since it
/// was last written: the peers after it, the new count, and whether the cache is written.
pub open spec fn add_step(peers: Seq<SocketAddr>, count: nat, hard_coded: Seq<SocketAddr>, x: SocketAddr) -> (
    Seq<SocketAddr>,
    nat,
    bool,
) {
    let new = !hard_coded.contains(x) && !peers.contains(x);
    let sync = new && count + 1 == SYNC_EVERY;
    (
        peers_after_add(peers, hard_coded, x),
        if !new {
            count
        } else if sync {
            0
        } else {
            count + 1
        },
        sync,
    )
}

/// A run of `add_peer` calls, one per address of `xs` in order: the peers after it, the count
/// after it, whether each call wrote the cache, and how many of the addresses were new peers.
pub open spec fn add_run(peers: Seq<SocketAddr>, count: nat, hard_coded: Seq<SocketAddr>, xs: Seq<SocketAddr>) -> (
    Seq<SocketAddr>,
    nat,
    Seq<bool>,
    nat,
)
    decreases xs.len(),
{
    if xs.len() == 0 {
        (peers, count, Seq::empty(), 0)
    } else {
        let r = add_run(peers, count, hard_coded, xs.drop_last());
        let s = add_step(r.0, r.1, hard_coded, xs.last());
        let new = !hard_coded.contains(xs.last()) && !r.0.contains(xs.last());
        (s.0, s.1, r.2.push(s.2), if new {
            r.3 + 1
        } else {
            r.3
        })
    }
}

/// Over any run of adds, the cache is written exactly on every tenth new peer, counting from
/// the new peers it had seen since it was last written; the count it is left with is the new
/// peers since the last write.
pub proof fn law_written_every_tenth_new_peer(
    peers: Seq<SocketAddr>,
    count: nat,
    hard_coded: Seq<SocketAddr>,
    xs: Seq<SocketAddr>,
)
    requires
        count < SYNC_EVERY,
    ensures
        add_run(peers, count, hard_coded, xs).2.len() == xs.len(),
        add_run(peers, count, hard_coded, xs).1 == (count + add_run(peers, count, hard_coded, xs).3)
            % (SYNC_EVERY as nat),
        forall|i: int|
            0 <= i < xs.len() ==> (#[trigger] add_run(peers, count, hard_coded, xs).2[i] <==> (
            add_run(peers, count, hard_coded, xs.take(i + 1)).3 > add_run(
                peers,
                count,
                hard_coded,
                xs.take(i),
            ).3 && (count + add_run(peers, count, hard_coded, xs.take(i + 1)).3) % (SYNC_EVERY as nat)
                == 0)),
    decreases xs.len(),
{
    if xs.len() > 0 {
        let ys = xs.drop_last();
        law_written_every_tenth_new_peer(peers, count, hard_coded, ys);
        let n = xs.len() - 1;
        assert(xs.take(n + 1) =~= xs);
        assert(xs.take(n) =~= ys);
        assert forall|i: int|
            0 <= i < xs.len() implies (#[trigger] add_run(peers, count, hard_coded, xs).2[i] <==> (
            add_run(peers, count, hard_coded, xs.take(i + 1)).3 > add_run(
                peers,
                count,
                hard_coded,
                xs.take(i),
            ).3 && (count + add_run(peers, count, hard_coded, xs.take(i + 1)).3) % (SYNC_EVERY as nat)
                == 0)) by {
            if i < n {
                assert(xs.take(i + 1) =~= ys.take(i + 1));
                assert(xs.take(i) =~= ys.take(i));
                assert(add_run(peers, count, hard_coded, xs).2[i] == add_run(peers, count, hard_coded, ys).2[i]);
            }
        }
    }
}

/// A cache of peers, most recently used at the back ("the top").
#[derive(Debug, Clone)]
pub struct BootstrapCache {
    peers: VecDeque<SocketAddr>,
    cache_path: String,
    add_count: u8,
    hard_coded_contacts: Vec<SocketAddr>,
}

impl BootstrapCache {
    /// The cached peers, oldest first.
    pub closed spec fn peers_view(&self) -> Seq<SocketAddr> {
        self.peers@
    }

    /// The hard-coded contacts, which are never cached.
    pub closed spec fn hard_coded_view(&self) -> Seq<SocketAddr> {
        self.hard_coded_contacts@
    }

    /// The number of new peers added since the cache was last written to disk.
    pub closed spec fn add_count_view(&self) -> nat {
        self.add_count as nat
    }

    /// The file that the cache is written to.
    pub closed spec fn cache_path_view(&self) -> Seq<char> {
        self.cache_path@
    }

    /// Well-formed: fewer than `SYNC_EVERY` new peers since the last write.
    pub closed spec fn wf(&self) -> bool {
        self.add_count < SYNC_EVERY
    }

    /// A well-formed cache has counted fewer new peers than a write takes.
    pub proof fn lemma_count_below_sync(&self)
        requires
            self.wf(),
        ensures
            self.add_count_view() < SYNC_EVERY,
    {
    }

    /// A cache backed by the file at `cache_path`. `stored` is what that file holds, or
    /// `None` when there is no such file; with `fresh`, what it holds is ignored.
    pub fn new(
        hard_coded_contacts: Vec<SocketAddr>,
        cache_path: String,
        stored: Option<VecDeque<SocketAddr>>,
        fresh: bool,
    ) -> (r: BootstrapCache)
        ensures
            r.wf(),
            r.hard_coded_view() == hard_coded_contacts@,
            r.cache_path_view() == cache_path@,
            r.add_count_view() == 0,
            r.peers_view() == (match stored {
                Some(p) if !fresh => p@,
                _ => Seq::<SocketAddr>::empty(),
            }),
    {
        let peers = match stored {
            Some(p) => {
                if fresh {
                    VecDeque::new()
                } else {
                    p
                }
            },
            None => VecDeque::new(),
        };
        BootstrapCache { peers, cache_path, add_count: 0, hard_coded_contacts }
    }

    /// The cached peers, oldest first.
    pub fn peers(&self) -> (r: &VecDeque<SocketAddr>)
        ensures
            r@ == self.peers_view(),
    {
        &self.peers
    }

    /// Replaces the cached peers.
    pub fn set_peers(&mut self, peers: VecDeque<SocketAddr>)
        ensures
            final(self).peers_view() == peers@,
            final(self).hard_coded_view() == old(self).hard_coded_view(),
            final(self).add_count_view() == old(self).add_count_view(),
            final(self).cache_path_view() == old(self).cache_path_view(),
            final(self).wf() == old(self).wf(),
    {
        self.peers = peers;
    }

    /// The hard-coded contacts.
    pub fn hard_coded_contacts(&self) -> (r: &Vec<SocketAddr>)
        ensures
            r@ == self.hard_coded_view(),
    {
        &self.hard_coded_contacts
    }

    /// The file that the cache is written to.
    pub fn cache_path(&self) -> (r: &String)
        ensures
            r@ == self.cache_path_view(),
    {
        &self.cache_path
    }

    /// Caches the given peer unless it is a hard-coded contact: a known peer is moved to the
    /// top, a new one is added at the top (dropping the oldest when over capacity). Returns
    /// whether the cache must now be written to disk, which is the case after every 10 new
    /// peers.
    pub fn add_peer(&mut self, peer: SocketAddr) -> (sync: bool)
        requires
            old(self).wf(),
        ensures
            final(self).wf(),
            final(self).peers_view() == peers_after_add(
                old(self).peers_view(),
                old(self).hard_coded_view(),
                peer,
            ),
            final(self).hard_coded_view() == old(self).hard_coded_view(),
            final(self).cache_path_view() == old(self).cache_path_view(),
            (final(self).peers_view(), final(self).add_count_view(), sync) == add_step(
                old(self).peers_view(),
                old(self).add_count_view(),
                old(self).hard_coded_view(),
                peer,
            ),
            old(self).hard_coded_view().contains(peer) || old(self).peers_view().contains(peer)
                ==> !sync && final(self).add_count_view() == old(self).add_count_view(),
            !old(self).hard_coded_view().contains(peer) && !old(self).peers_view().contains(peer)
                ==> sync == (old(self).add_count_view() + 1 == SYNC_EVERY) && final(self).add_count_view() == (if sync {
                0
            } else {
                old(self).add_count_view() + 1
            }),
    {
        if contains_addr(&self.hard_coded_contacts, &peer) {
            return false;
        }
        if deque_contains(&self.peers, &peer) {
            self.move_to_cache_top(peer);
            false
        } else {
            self.insert_new(peer)
        }
    }

    fn insert_new(&mut self, peer: SocketAddr) -> (sync: bool)
        requires
            old(self).wf(),
            !old(self).peers_view().contains(peer),
        ensures
            final(self).wf(),
            final(self).peers_view() == inserted_new(old(self).peers_view(), peer),
            final(self).hard_coded_view() == old(self).hard_coded_view(),
            final(self).cache_path_view() == old(self).cache_path_view(),
            sync == (old(self).add_count_view() + 1 == SYNC_EVERY),
            final(self).add_count_view() == (if sync {
                0
            } else {
                old(self).add_count_view() + 1
            }),
    {
        let ghost before = self.peers@;
        self.peers.push_back(peer);
        self.add_count = self.add_count + 1;
        if self.peers.len() > MAX_CACHE_SIZE {
            let _ = self.peers.pop_front();
            assert(self.peers@ =~= before.push(peer).drop_first());
        }
        self.try_sync_to_disk()
    }

    /// Moves the given peer from its first occurrence to the top of the cache; does nothing
    /// when it is not cached.
    pub fn move_to_cache_top(&mut self, peer: SocketAddr)
        ensures
            final(self).peers_view() == (if old(self).peers_view().contains(peer) {
                moved_to_top(old(self).peers_view(), peer)
            } else {
                old(self).peers_view()
            }),
            final(self).hard_coded_view() == old(self).hard_coded_view(),
            final(self).add_count_view() == old(self).add_count_view(),
            final(self).cache_path_view() == old(self).cache_path_view(),
            final(self).wf() == old(self).wf(),
    {
        proof {
            lemma_first_index(self.peers@, peer);
        }
        if let Some(pos) = deque_position(&self.peers, &peer) {
            let _ = self.peers.remove(pos);
            self.peers.push_back(peer);
        }
    }

    /// Resets the count of new peers once it reaches `SYNC_EVERY`, which is when the cache
    /// must be written to disk; returns whether it must.
    fn try_sync_to_disk(&mut self) -> (sync: bool)
        requires
            old(self).add_count <= SYNC_EVERY,
        ensures
            sync == (old(self).add_count == SYNC_EVERY),
            final(self).add_count == (if sync {
                0
            } else {
                old(self).add_count
            }),
            final(self).peers == old(self).peers,
            final(self).hard_coded_contacts == old(self).hard_coded_contacts,
            final(self).cache_path == old(self).cache_path,
    {
        if self.add_count > 9 {
            self.add_count = 0;
            true
        } else {
            false
        }
    }
}

/// Whether `v` holds `x`.
pub fn contains_addr(v: &Vec<SocketAddr>, x: &SocketAddr) -> (r: bool)
    ensures
        r == v@.contains(*x),
{
    let mut i: usize = 0;
    while i < v.len()
        invariant
            i <= v@.len(),
            forall|j: int| 0 <= j < i ==> v@[j] != *x,
        decreases v@.len() - i,
    {
        if v[i] == *x {
            assert(v@[i as int] == *x);
            return true;
        }
        i = i + 1;
    }
    false
}

/// Whether `v` holds `x`.
fn deque_contains(v: &VecDeque<SocketAddr>, x: &SocketAddr) -> (r: bool)
    ensures
        r == v@.contains(*x),
{
    deque_position(v, x).is_some()
}

/// The position of the first occurrence of `x` in `v`.
fn deque_position(v: &VecDeque<SocketAddr>, x: &SocketAddr) -> (r: Option<usize>)
    ensures
        r matches Some(i) ==> i == first_index(v@, *x) && v@.contains(*x),
        r is None ==> !v@.contains(*x),
{
    proof {
        lemma_first_index(v@, *x);
    }
    let mut i: usize = 0;
    while i < v.len()
        invariant
            i <= v@.len(),
            forall|j: int| 0 <= j < i ==> v@[j] != *x,
        decreases v@.len() - i,
    {
        if v[i] == *x {
            assert(v@[i as int] == *x);
            assert(v@.contains(*x));
            proof {
                lemma_first_index(v@, *x);
            }
            let ghost fi = first_index(v@, *x);
            assert(v@[fi] == *x);
            assert(!(fi < i));
            return Some(i);
        }
        i = i + 1;
    }
    None
}

} // verus!
