//! Deduplication of connection attempts: while an attempt to connect to an address is in
//! progress, further attempts wait for its result instead of connecting again.

use crate::addr::SocketAddr;
use crate::connection_pool::{is_first_key, keys_with_addr, ConnectionPool, Key};
use crate::key_map::AddrMap;
use vstd::prelude::*;

verus! {

/// The answer to a query for an attempt to connect.
#[derive(Debug, Clone, Copy, PartialEq, Eq, Structural)]
pub enum DedupHandle {
    /// No attempt is in progress: this is the attempt with the given number; its result is to
    /// be handed to the attempts that wait for it, then `complete` called.
    New(u64),
    /// The attempt with the given number is in progress: wait for its result. If that attempt
    /// ends without one, query again.
    Dup(u64),
}

/// A query for an attempt to connect to `addr`, given the attempts in progress and the number
/// of the next attempt: the attempts then in progress, the next number, and the answer.
pub open spec fn query_spec(attempts: Map<SocketAddr, u64>, next: u64, addr: SocketAddr) -> (
    Map<SocketAddr, u64>,
    u64,
    DedupHandle,
) {
    if attempts.contains_key(addr) {
        (attempts, next, DedupHandle::Dup(attempts[addr]))
    } else {
        (attempts.insert(addr, next), next.wrapping_add(1), DedupHandle::New(next))
    }
}

/// The end of the attempt numbered `attempt` to connect to `addr`: the attempts then in
/// progress.
pub open spec fn complete_spec(attempts: Map<SocketAddr, u64>, addr: SocketAddr, attempt: u64) -> Map<
    SocketAddr,
    u64,
> {
    if attempts.contains_key(addr) && attempts[addr] == attempt {
        attempts.remove(addr)
    } else {
        attempts
    }
}

/// The connection attempts in progress.
#[derive(Debug)]
pub struct ConnectionDeduplicator {
    attempts: AddrMap<u64>,
    next_attempt: u64,
}

impl ConnectionDeduplicator {
    /// The attempt in progress for each address.
    pub closed spec fn attempts_view(&self) -> Map<SocketAddr, u64> {
        self.attempts.view_map()
    }

    /// The number of the next attempt.
    pub closed spec fn next_view(&self) -> u64 {
        self.next_attempt
    }

    /// Well-formed.
    pub closed spec fn wf(&self) -> bool {
        self.attempts.wf()
    }

    /// No attempt in progress.
    pub fn new() -> (r: Self)
        ensures
            r.wf(),
            r.attempts_view() == Map::<SocketAddr, u64>::empty(),
            r.next_view() == 0,
    {
        ConnectionDeduplicator { attempts: AddrMap::new(), next_attempt: 0 }
    }

    /// Queries for an attempt to connect to `addr`: a new attempt if none is in progress, else
    /// the one in progress.
    pub fn query(&mut self, addr: &SocketAddr) -> (r: DedupHandle)
        requires
            old(self).wf(),
        ensures
            final(self).wf(),
            (final(self).attempts_view(), final(self).next_view(), r) == query_spec(
                old(self).attempts_view(),
                old(self).next_view(),
                *addr,
            ),
    {
        match self.attempts.get(addr) {
            Some(n) => DedupHandle::Dup(*n),
            None => {
                let n = self.next_attempt;
                self.next_attempt = n.wrapping_add(1);
                let _ = self.attempts.insert(*addr, n);
                DedupHandle::New(n)
            },
        }
    }

    /// The attempt numbered `attempt` to connect to `addr` is over, with or without a result:
    /// it is no longer in progress. Returns whether it was.
    pub fn complete(&mut self, addr: &SocketAddr, attempt: u64) -> (r: bool)
        requires
            old(self).wf(),
        ensures
            final(self).wf(),
            final(self).next_view() == old(self).next_view(),
            r == (old(self).attempts_view().contains_key(*addr) && old(self).attempts_view()[*addr]
                == attempt),
            final(self).attempts_view() == complete_spec(old(self).attempts_view(), *addr, attempt),
    {
        let current = match self.attempts.get(addr) {
            Some(n) => *n == attempt,
            None => false,
        };
        if current {
            let _ = self.attempts.remove(addr);
        }
        current
    }

    /// The attempt numbered `attempt` to connect to `addr` was dropped before it ended: the
    /// address is free again, so that an attempt waiting for it queries again and starts its
    /// own.
    pub fn abandon(&mut self, addr: &SocketAddr, attempt: u64)
        requires
            old(self).wf(),
        ensures
            final(self).wf(),
            final(self).next_view() == old(self).next_view(),
            final(self).attempts_view() == complete_spec(old(self).attempts_view(), *addr, attempt),
            !final(self).attempts_view().contains_key(*addr) || final(self).attempts_view()[*addr]
                != attempt,
    {
        let _ = self.complete(addr, attempt);
    }
}

/// What to do to get a connection to an address.
#[derive(Debug)]
pub enum ConnectStep<C> {
    /// Use this pooled connection.
    Pooled(C),
    /// Connect: this is the attempt with the given number.
    Start(u64),
    /// Wait for the attempt with the given number, then ask again.
    Wait(u64),
}

/// How a connection to `addr` is had: the pooled connection to it with the least key if there
/// is one, the deduplicator left as it was; else what a query of the deduplicator answers.
pub fn connect_step<C: Clone>(
    pool: &ConnectionPool<C>,
    attempts: &mut ConnectionDeduplicator,
    addr: &SocketAddr,
) -> (r: ConnectStep<C>)
    requires
        pool.wf(),
        old(attempts).wf(),
    ensures
        final(attempts).wf(),
        keys_with_addr(pool.key_view(), *addr) != Set::<Key>::empty() ==> final(attempts).attempts_view()
            == old(attempts).attempts_view() && final(attempts).next_view() == old(attempts).next_view()
            && (r matches ConnectStep::Pooled(c) && exists|k: Key|
            #[trigger] is_first_key(pool.key_view(), *addr, k) && cloned::<C>(pool.key_view()[k].0, c)),
        keys_with_addr(pool.key_view(), *addr) == Set::<Key>::empty() ==> ({
            let q = query_spec(old(attempts).attempts_view(), old(attempts).next_view(), *addr);
            &&& final(attempts).attempts_view() == q.0
            &&& final(attempts).next_view() == q.1
            &&& match q.2 {
                DedupHandle::New(n) => r matches ConnectStep::Start(m) && m == n,
                DedupHandle::Dup(n) => r matches ConnectStep::Wait(m) && m == n,
            }
        }),
{
    match pool.get_by_addr(addr) {
        Some((c, _)) => ConnectStep::Pooled(c),
        None => match attempts.query(addr) {
            DedupHandle::New(n) => ConnectStep::Start(n),
            DedupHandle::Dup(n) => ConnectStep::Wait(n),
        },
    }
}

/// While an attempt is in progress, a query for the address waits for that attempt, whose
/// number the first query gave; once that attempt is over, completed or abandoned, the next
/// query starts a new one.
pub proof fn law_one_attempt_at_a_time(attempts: Map<SocketAddr, u64>, next: u64, addr: SocketAddr)
    requires
        !attempts.contains_key(addr),
    ensures
        ({
            let q1 = query_spec(attempts, next, addr);
            let q2 = query_spec(q1.0, q1.1, addr);
            let q3 = query_spec(complete_spec(q2.0, addr, next), q2.1, addr);
            &&& q1.2 == DedupHandle::New(next)
            &&& q2.2 == DedupHandle::Dup(next)
            &&& q3.2 == DedupHandle::New(q2.1)
        }),
{
    assert(!attempts.insert(addr, next).remove(addr).contains_key(addr));
}

} // verus!
