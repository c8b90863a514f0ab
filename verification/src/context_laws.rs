//! What holds of the connection context across its operations.

use crate::addr::SocketAddr;
use crate::conn_state::{ConnView, FromView, Handshake, MsgView, ToView};
use crate::context::{
    bootstrap, bootstrap_nodes, connect_all, connect_err, connect_to, connected, dispatch,
    dispatch_all, drop_conn, end_group, group_in_use, is_key_order, kill, model_wf, release_group,
    remove_members, send_writes, terminate, try_write, wire_msg, incoming, connect_panics,
    lemma_dispatch_all_frame, ActionView, Model, Side,
};
use crate::event::{EventView, PeerError};
use crate::peer::{OurType, Peer};
use crate::utils::Token;
use vstd::prelude::*;

verus! {

/// Dropping the members of a group leaves the groups as they were, and every other connection
/// state as it was.
pub proof fn lemma_remove_members(m: Model, g: u64, keys: Seq<SocketAddr>)
    ensures
        remove_members(m, g, keys).0.groups == m.groups,
        remove_members(m, g, keys).0.peers == m.peers,
        remove_members(m, g, keys).0.add_count == m.add_count,
        remove_members(m, g, keys).0.awaiting_echo == m.awaiting_echo,
        forall|a: SocketAddr| #[trigger]
            remove_members(m, g, keys).0.conns.contains_key(a) <==> m.conns.contains_key(a) && !(
            keys.contains(a) && m.conns[a].bootstrap_group == Some(g)),
        forall|a: SocketAddr| #[trigger]
            remove_members(m, g, keys).0.conns.contains_key(a) ==> remove_members(
                m,
                g,
                keys,
            ).0.conns[a] == m.conns[a],
    decreases keys.len(),
{
    if keys.len() > 0 {
        let ks = keys.drop_last();
        let k = keys.last();
        lemma_remove_members(m, g, ks);
        let r1 = remove_members(m, g, ks);
        assert forall|a: SocketAddr| keys.contains(a) <==> ks.contains(a) || a == k by {
            if keys.contains(a) {
                let i = choose|i: int| 0 <= i < keys.len() && keys[i] == a;
                if i < keys.len() - 1 {
                    assert(ks[i] == a);
                }
            }
            if ks.contains(a) {
                let i = choose|i: int| 0 <= i < ks.len() && ks[i] == a;
                assert(keys[i] == a);
            }
            if a == k {
                assert(keys[keys.len() - 1] == a);
            }
        }
        if r1.0.conns.contains_key(k) && r1.0.conns[k].bootstrap_group == Some(g) {
            let r2 = drop_conn(r1.0, k, Some(g));
            assert(r2.0.conns == r1.0.conns.remove(k));
            assert(r2.0.groups == r1.0.groups);
        }
    }
}

/// Ending a group from a member that no longer belongs to it, in an order that lists every
/// connection state: no connection state belongs to the group afterwards, the group is gone,
/// and no bootstrap failure is reported when it ends as successful.
pub proof fn lemma_terminate(m: Model, g: u64, keys: Seq<SocketAddr>)
    requires
        forall|a: SocketAddr| #[trigger] m.conns.contains_key(a) ==> keys.contains(a),
    ensures
        !group_in_use(terminate(m, g, keys, true).0.conns, g),
        !terminate(m, g, keys, true).0.groups.contains_key(g),
        forall|a: SocketAddr| #[trigger]
            terminate(m, g, keys, true).0.conns.contains_key(a) <==> m.conns.contains_key(a)
                && m.conns[a].bootstrap_group != Some(g),
        forall|a: SocketAddr| #[trigger]
            terminate(m, g, keys, true).0.conns.contains_key(a) ==> terminate(
                m,
                g,
                keys,
                true,
            ).0.conns[a] == m.conns[a],
        forall|h: u64|
            h != g ==> (#[trigger] terminate(m, g, keys, true).0.groups.contains_key(h)
                <==> m.groups.contains_key(h)),
{
    let m0 = if m.groups.contains_key(g) {
        Model { groups: m.groups.insert(g, true), ..m }
    } else {
        m
    };
    lemma_remove_members(m0, g, keys);
    let r1 = remove_members(m0, g, keys);
    assert(!group_in_use(r1.0.conns, g)) by {
        if group_in_use(r1.0.conns, g) {
            let a = choose|a: SocketAddr| #[trigger]
                r1.0.conns.contains_key(a) && r1.0.conns[a].bootstrap_group == Some(g);
            assert(m0.conns.contains_key(a));
        }
    }
}

/// An element of the middle part of a concatenation is in it.
proof fn lemma_contains_mid<A>(x: Seq<A>, b: Seq<A>, y: Seq<A>, i: int)
    requires
        0 <= i < b.len(),
    ensures
        (x + b + y).contains(b[i]),
{
    assert((x + b + y)[x.len() + i] == b[i]);
}

/// Once a bootstrap connection is made, the group it belonged to is gone, and with it every
/// other connection attempt of the group: we stay bootstrapped to one node only. Every
/// connection state outside the group stays, and the user hears of the bootstrap.
#[verifier::spinoff_prover]
#[verifier::rlimit(40)]
pub proof fn law_bootstrap_keeps_one(m: Model, hard: Seq<SocketAddr>, addr: SocketAddr, keys: Seq<SocketAddr>)
    requires
        model_wf(m),
        m.conns.contains_key(addr),
        m.conns[addr].to_peer is Initiated,
        m.conns[addr].bootstrap_group is Some,
        !(m.conns[addr].from_peer is NoConnection),
        is_key_order(keys, m.conns),
    ensures
        ({
            let g = m.conns[addr].bootstrap_group->0;
            let r = connected(m, hard, addr, keys);
            &&& r.0.conns.contains_key(addr)
            &&& r.0.conns[addr].to_peer is Established
            &&& !group_in_use(r.0.conns, g)
            &&& !r.0.groups.contains_key(g)
            &&& forall|a: SocketAddr|
                a != addr ==> (#[trigger] r.0.conns.contains_key(a) <==> m.conns.contains_key(a)
                    && m.conns[a].bootstrap_group != Some(g))
            &&& r.1.contains(ActionView::Fire(EventView::BootstrappedTo { node: addr }))
        }),
{
    let c = m.conns[addr];
    let g = c.bootstrap_group->0;
    let r1 = if c.we_contacted_peer {
        crate::context::cache_add(m, hard, addr)
    } else {
        (m, Seq::<ActionView>::empty())
    };
    assert(r1.0.conns == m.conns);
    let ev = ActionView::Fire(EventView::BootstrappedTo { node: addr });
    match c.from_peer {
        FromView::NotNeeded => {
            let c1 = ConnView { to_peer: ToView::Established, bootstrap_group: None, ..c };
            let m2 = Model { conns: r1.0.conns.insert(addr, c1), ..r1.0 };
            assert forall|a: SocketAddr| #[trigger] m2.conns.contains_key(a) implies keys.contains(a) by {
                assert(m.conns.contains_key(a));
            }
            lemma_terminate(m2, g, keys);
            let sends = c.to_peer->0;
            let s1 = seq![
                ActionView::Write {
                    side: Side::ToPeer,
                    peer: Peer::Node(addr),
                    msg: MsgView::Handshake(crate::conn_state::Handshake::Client),
                    token: 0,
                },
                ev,
            ];
            let rest = send_writes(addr, sends) + terminate(m2, g, keys, true).1 + seq![
                ActionView::StartReading { addr },
            ];
            lemma_contains_mid(r1.1, s1, rest, 1);
            assert(s1[1] == ev);
            assert(connected(m, hard, addr, keys).1 =~= r1.1 + s1 + rest);
            let r = connected(m, hard, addr, keys);
            assert(r.0 == terminate(m2, g, keys, true).0);
            assert(r.0.conns.contains_key(addr));
            assert(r.0.conns[addr].to_peer is Established);
            assert(r.1.contains(ev));
        },
        FromView::Established(reads) => {
            lemma_dispatch_all_frame(r1.0, r1.0, hard, Peer::Node(addr), Side::ToPeer, reads, c.we_contacted_peer);
            let r2 = crate::context::dispatch_all(r1.0, hard, Peer::Node(addr), Side::ToPeer, reads, c.we_contacted_peer);
            let c1 = ConnView {
                to_peer: ToView::Established,
                from_peer: FromView::Established(Seq::empty()),
                bootstrap_group: None,
                ..c
            };
            let m2 = Model { conns: r2.0.conns.insert(addr, c1), ..r2.0 };
            assert forall|a: SocketAddr| #[trigger] m2.conns.contains_key(a) implies keys.contains(a) by {
                assert(m.conns.contains_key(a));
            }
            lemma_terminate(m2, g, keys);
            let sends = c.to_peer->0;
            let rest = r2.1 + send_writes(addr, sends) + terminate(m2, g, keys, true).1;
            lemma_contains_mid(r1.1, seq![ev], rest, 0);
            assert(connected(m, hard, addr, keys).1 =~= r1.1 + seq![ev] + rest);
        },
        FromView::NoConnection => {},
    }
}

/// A message sent to a node that we are still connecting to is written on the connection once
/// it is made, after the messages that waited before it.
pub proof fn law_queued_message_written_on_connect(
    m: Model,
    our_type: OurType,
    hard: Seq<SocketAddr>,
    a: SocketAddr,
    msg: MsgView,
    token: Token,
    keys: Seq<SocketAddr>,
)
    requires
        m.conns.contains_key(a),
        m.conns[a].to_peer is Initiated,
    ensures
        ({
            let m1 = try_write(m, our_type, Peer::Node(a), msg, token).0;
            &&& m1.conns[a].to_peer == ToView::Initiated(m.conns[a].to_peer->0.push((msg, token)))
            &&& connected(m1, hard, a, keys).1.contains(
                ActionView::Write { side: Side::ToPeer, peer: Peer::Node(a), msg, token },
            )
        }),
{
    let m1 = try_write(m, our_type, Peer::Node(a), msg, token).0;
    let c = m1.conns[a];
    let sends = c.to_peer->0;
    let w = ActionView::Write { side: Side::ToPeer, peer: Peer::Node(a), msg, token };
    assert(sends.last() == (msg, token));
    let sw = send_writes(a, sends);
    assert(sw[sw.len() - 1] == w);
    let r1 = if c.we_contacted_peer {
        crate::context::cache_add(m1, hard, a)
    } else {
        (m1, Seq::<ActionView>::empty())
    };
    let ev = crate::context::connected_event(c, a);
    match c.from_peer {
        FromView::NoConnection => {
            let s1 = seq![
                ActionView::Write {
                    side: Side::ToPeer,
                    peer: Peer::Node(a),
                    msg: MsgView::Handshake(crate::conn_state::Handshake::Node),
                    token: 0,
                },
            ];
            lemma_contains_mid(r1.1 + s1, sw, Seq::<ActionView>::empty(), sw.len() - 1);
            assert(connected(m1, hard, a, keys).1 =~= r1.1 + s1 + sw + Seq::<ActionView>::empty());
        },
        FromView::NotNeeded => {
            let c1 = ConnView { to_peer: ToView::Established, bootstrap_group: None, ..c };
            let r3 = end_group(Model { conns: r1.0.conns.insert(a, c1), ..r1.0 }, c.bootstrap_group, keys);
            let s1 = seq![
                ActionView::Write {
                    side: Side::ToPeer,
                    peer: Peer::Node(a),
                    msg: MsgView::Handshake(crate::conn_state::Handshake::Client),
                    token: 0,
                },
                ActionView::Fire(ev),
            ];
            let rest = r3.1 + seq![ActionView::StartReading { addr: a }];
            lemma_contains_mid(r1.1 + s1, sw, rest, sw.len() - 1);
            assert(connected(m1, hard, a, keys).1 =~= r1.1 + s1 + sw + rest);
        },
        FromView::Established(reads) => {
            let r2 = crate::context::dispatch_all(r1.0, hard, Peer::Node(a), Side::ToPeer, reads, c.we_contacted_peer);
            let c1 = ConnView {
                to_peer: ToView::Established,
                from_peer: FromView::Established(Seq::empty()),
                bootstrap_group: None,
                ..c
            };
            let r3 = end_group(Model { conns: r2.0.conns.insert(a, c1), ..r2.0 }, c.bootstrap_group, keys);
            lemma_contains_mid(r1.1 + seq![ActionView::Fire(ev)] + r2.1, sw, r3.1, sw.len() - 1);
            assert(connected(m1, hard, a, keys).1 =~= r1.1 + seq![ActionView::Fire(ev)] + r2.1 + sw + r3.1);
        },
    }
}

/// A connection attempt to a peer that we are connected to, or connecting to, is refused and
/// changes nothing.
pub proof fn law_duplicate_connect_refused(
    m: Model,
    our_type: OurType,
    addr: SocketAddr,
    send_after: Option<(MsgView, Token)>,
    group: Option<u64>,
)
    requires
        m.conns.contains_key(addr),
        !(m.conns[addr].to_peer is NoConnection),
    ensures
        connect_to(m, our_type, addr, send_after, group) == (
            m,
            Seq::<ActionView>::empty(),
            Err::<(), PeerError>(PeerError::DuplicateConnectionToPeer { peer_addr: addr }),
        ),
{
}

/// A connect and cancel action per node, in order.
pub open spec fn connect_requests(nodes: Seq<SocketAddr>) -> Seq<ActionView>
    decreases nodes.len(),
{
    if nodes.len() == 0 {
        Seq::empty()
    } else {
        connect_requests(nodes.drop_last()) + seq![
            ActionView::ScheduleKill { addr: nodes.last() },
            ActionView::Connect { addr: nodes.last() },
        ]
    }
}

/// Connecting the group to fresh, distinct nodes: each gets a connection attempt of the group,
/// in order, and nothing else changes.
proof fn lemma_connect_all_fresh(m: Model, our_type: OurType, nodes: Seq<SocketAddr>, g: u64)
    requires
        nodes.no_duplicates(),
        forall|i: int| 0 <= i < nodes.len() ==> !m.conns.contains_key(#[trigger] nodes[i]),
    ensures
        connect_all(m, our_type, nodes, g).1 == connect_requests(nodes),
        connect_all(m, our_type, nodes, g).0.groups == m.groups,
        forall|a: SocketAddr| #[trigger]
            connect_all(m, our_type, nodes, g).0.conns.contains_key(a) <==> m.conns.contains_key(a)
                || nodes.contains(a),
        forall|a: SocketAddr|
            nodes.contains(a) ==> #[trigger] connect_all(m, our_type, nodes, g).0.conns[a].bootstrap_group
                == Some(g),
    decreases nodes.len(),
{
    if nodes.len() > 0 {
        let ns = nodes.drop_last();
        let k = nodes.last();
        assert forall|i: int| 0 <= i < ns.len() ==> !m.conns.contains_key(#[trigger] ns[i]) by {
            if 0 <= i < ns.len() {
                assert(ns[i] == nodes[i]);
            }
        }
        lemma_connect_all_fresh(m, our_type, ns, g);
        assert(!ns.contains(k)) by {
            if ns.contains(k) {
                let i = choose|i: int| 0 <= i < ns.len() && ns[i] == k;
                assert(nodes[i] == nodes[nodes.len() - 1]);
            }
        }
        assert(!m.conns.contains_key(nodes[nodes.len() - 1]));
        assert forall|a: SocketAddr| nodes.contains(a) <==> ns.contains(a) || a == k by {
            if nodes.contains(a) {
                let i = choose|i: int| 0 <= i < nodes.len() && nodes[i] == a;
                if i < nodes.len() - 1 {
                    assert(ns[i] == a);
                }
            }
            if ns.contains(a) {
                let i = choose|i: int| 0 <= i < ns.len() && ns[i] == a;
                assert(nodes[i] == a);
            }
            if a == k {
                assert(nodes[nodes.len() - 1] == a);
            }
        }
        let r1 = connect_all(m, our_type, ns, g);
        assert(!r1.0.conns.contains_key(k));
        assert(seq![ActionView::ScheduleKill { addr: k }] + seq![ActionView::Connect { addr: k }]
            =~= seq![ActionView::ScheduleKill { addr: k }, ActionView::Connect { addr: k }]);
    }
}

/// Bootstrapping off fresh, distinct nodes connects to each of them, in order: the cached peers,
/// most recent first, then the hard-coded contacts. With no node to bootstrap off, it fails at
/// once.
pub proof fn law_bootstrap_order(m: Model, our_type: OurType, hard: Seq<SocketAddr>, g: u64)
    requires
        model_wf(m),
        !m.groups.contains_key(g),
        bootstrap_nodes(m.peers, hard).no_duplicates(),
        forall|a: SocketAddr| #[trigger]
            bootstrap_nodes(m.peers, hard).contains(a) ==> !m.conns.contains_key(a),
    ensures
        bootstrap_nodes(m.peers, hard).len() > 0 ==> bootstrap(m, our_type, hard, g).1
            == connect_requests(bootstrap_nodes(m.peers, hard)),
        bootstrap_nodes(m.peers, hard).len() == 0 ==> bootstrap(m, our_type, hard, g).1 == seq![
            ActionView::Fire(EventView::BootstrapFailure),
        ],
        bootstrap_nodes(m.peers, hard).len() > 0 ==> bootstrap(m, our_type, hard, g).0.groups
            == m.groups.insert(g, false),
{
    let nodes = bootstrap_nodes(m.peers, hard);
    let m0 = Model { groups: m.groups.insert(g, false), ..m };
    assert forall|i: int| 0 <= i < nodes.len() implies !m0.conns.contains_key(#[trigger] nodes[i]) by {
        assert(nodes.contains(nodes[i]));
    }
    lemma_connect_all_fresh(m0, our_type, nodes, g);
    let r1 = connect_all(m0, our_type, nodes, g);
    if nodes.len() > 0 {
        assert(nodes.contains(nodes[0]));
        assert(r1.0.conns.contains_key(nodes[0]));
        assert(group_in_use(r1.0.conns, g));
        assert(connect_requests(nodes) + Seq::<ActionView>::empty() =~= connect_requests(nodes));
    } else {
        assert(r1.0 == m0);
        assert(!group_in_use(m0.conns, g)) by {
            if group_in_use(m0.conns, g) {
                let a = choose|a: SocketAddr| #[trigger]
                    m0.conns.contains_key(a) && m0.conns[a].bootstrap_group == Some(g);
                assert(m.conns.contains_key(a));
            }
        }
        assert(Seq::<ActionView>::empty() + seq![ActionView::Fire(EventView::BootstrapFailure)]
            =~= seq![ActionView::Fire(EventView::BootstrapFailure)]);
    }
}

/// A user message that a node sends before our connection to it is made waits, and is reported
/// once the connection is made.
pub proof fn law_early_message_handled_on_connect(
    m: Model,
    hard: Seq<SocketAddr>,
    our_type: OurType,
    a: SocketAddr,
    b: Seq<u8>,
    keys: Seq<SocketAddr>,
)
    requires
        m.conns.contains_key(a),
        m.conns[a].to_peer is Initiated,
        m.conns[a].from_peer is Established,
    ensures
        ({
            let m1 = wire_msg(m, hard, our_type, a, MsgView::UserMsg(b)).0;
            &&& wire_msg(m, hard, our_type, a, MsgView::UserMsg(b)).1 == Seq::<ActionView>::empty()
            &&& m1.conns[a].from_peer == FromView::Established(
                m.conns[a].from_peer->0.push(MsgView::UserMsg(b)),
            )
            &&& connected(m1, hard, a, keys).1.contains(
                ActionView::Fire(EventView::NewMessage { peer: Peer::Node(a), msg: b }),
            )
        }),
{
    let m1 = wire_msg(m, hard, our_type, a, MsgView::UserMsg(b)).0;
    let c = m1.conns[a];
    let reads = c.from_peer->0;
    let ev = ActionView::Fire(EventView::NewMessage { peer: Peer::Node(a), msg: b });
    let r1 = if c.we_contacted_peer {
        crate::context::cache_add(m1, hard, a)
    } else {
        (m1, Seq::<ActionView>::empty())
    };
    let d1 = dispatch_all(r1.0, hard, Peer::Node(a), Side::ToPeer, reads.drop_last(), c.we_contacted_peer);
    let d2 = dispatch(d1.0, hard, Peer::Node(a), Side::ToPeer, reads.last(), c.we_contacted_peer);
    assert(reads.last() == MsgView::UserMsg(b));
    assert(d2.1[0] == ev);
    let r2 = dispatch_all(r1.0, hard, Peer::Node(a), Side::ToPeer, reads, c.we_contacted_peer);
    assert(r2.1 == d1.1 + d2.1);
    let c1 = ConnView {
        to_peer: ToView::Established,
        from_peer: FromView::Established(Seq::empty()),
        bootstrap_group: None,
        ..c
    };
    let r3 = end_group(Model { conns: r2.0.conns.insert(a, c1), ..r2.0 }, c.bootstrap_group, keys);
    let sw = send_writes(a, c.to_peer->0);
    let pre = r1.1 + seq![ActionView::Fire(crate::context::connected_event(c, a))] + d1.1;
    lemma_contains_mid(pre, d2.1, sw + r3.1, 0);
    assert(connected(m1, hard, a, keys).1 =~= pre + d2.1 + (sw + r3.1));
}

/// The timeout of a connection never drops one that completed with a side connected.
pub proof fn law_timer_keeps_complete_connections(m: Model, a: SocketAddr)
    requires
        m.conns.contains_key(a),
        m.conns[a].is_complete(),
        m.conns[a].to_peer is Established || m.conns[a].from_peer is Established,
    ensures
        kill(m, a) == (m, Seq::<ActionView>::empty()),
{
}

/// When the last attempt of a bootstrap group that has not succeeded fails, the user hears that
/// bootstrapping failed, and the group is gone.
pub proof fn law_bootstrap_fails_with_last_attempt(m: Model, a: SocketAddr, err: PeerError)
    requires
        model_wf(m),
        m.conns.contains_key(a),
        m.conns[a].bootstrap_group is Some,
        m.groups[m.conns[a].bootstrap_group->0] == false,
        forall|b: SocketAddr| #[trigger]
            m.conns.contains_key(b) && b != a ==> m.conns[b].bootstrap_group != m.conns[a].bootstrap_group,
        !(err is DuplicateConnectionToPeer),
    ensures
        connect_err(m, a, err).1.contains(ActionView::Fire(EventView::BootstrapFailure)),
        !connect_err(m, a, err).0.groups.contains_key(m.conns[a].bootstrap_group->0),
        !connect_err(m, a, err).0.conns.contains_key(a),
{
    let c = m.conns[a];
    let g = c.bootstrap_group->0;
    let m1 = Model { conns: m.conns.remove(a), ..m };
    assert(!group_in_use(m1.conns, g)) by {
        if group_in_use(m1.conns, g) {
            let b = choose|b: SocketAddr| #[trigger]
                m1.conns.contains_key(b) && m1.conns[b].bootstrap_group == Some(g);
            assert(m.conns.contains_key(b) && b != a);
        }
    }
    let a1: Seq<ActionView> = match c.drop_event() {
        Some(e) => seq![ActionView::Fire(e)],
        None => Seq::empty(),
    };
    let a2: Seq<ActionView> = if c.to_peer is Initiated {
        seq![ActionView::Terminate { addr: a }]
    } else {
        Seq::empty()
    };
    let a3 = seq![ActionView::Fire(EventView::BootstrapFailure)];
    lemma_contains_mid(a1 + a2, a3, Seq::<ActionView>::empty(), 0);
    assert(connect_err(m, a, err).1 =~= a1 + a2 + a3 + Seq::<ActionView>::empty());
}

/// Sending to a node that our connection to is up writes the message on that connection at
/// once, exactly once, to that node, with the token given, and changes no state.
pub proof fn law_send_to_connected_node_is_written(
    m: Model,
    our_type: OurType,
    a: SocketAddr,
    msg: MsgView,
    token: Token,
)
    requires
        m.conns.contains_key(a),
        m.conns[a].to_peer is Established,
    ensures
        try_write(m, our_type, Peer::Node(a), msg, token).0 == m,
        try_write(m, our_type, Peer::Node(a), msg, token).1 == Ok::<Seq<ActionView>, PeerError>(
            seq![ActionView::Write { side: Side::ToPeer, peer: Peer::Node(a), msg, token }],
        ),
{
    assert(Seq::<ActionView>::empty() + seq![ActionView::Write { side: Side::ToPeer, peer: Peer::Node(a), msg, token }]
        =~= seq![ActionView::Write { side: Side::ToPeer, peer: Peer::Node(a), msg, token }]);
}

/// Sending to a node never fails and never loses the message, unless we need no connection to
/// that node: it is written to the node now, or it is the last of the messages waiting for our
/// connection to the node.
pub proof fn law_send_to_node_is_written_or_waits(
    m: Model,
    our_type: OurType,
    a: SocketAddr,
    msg: MsgView,
    token: Token,
)
    requires
        !connect_panics(m, our_type, a),
    ensures
        ({
            let r = try_write(m, our_type, Peer::Node(a), msg, token);
            &&& r.1 is Ok
            &&& {
                ||| m.conns.contains_key(a) && m.conns[a].to_peer is NotNeeded
                ||| r.1->Ok_0.contains(ActionView::Write { side: Side::ToPeer, peer: Peer::Node(a), msg, token })
                ||| r.0.conns.contains_key(a) && r.0.conns[a].to_peer is Initiated && r.0.conns[a].to_peer->Initiated_0.len() > 0
                    && r.0.conns[a].to_peer->Initiated_0.last() == (msg, token)
            }
        }),
{
    let existed = m.conns.contains_key(a);
    let m1 = if existed {
        m
    } else {
        Model { conns: m.conns.insert(a, ConnView::fresh(a, None)), ..m }
    };
    let pre: Seq<ActionView> = if existed {
        Seq::empty()
    } else {
        seq![ActionView::ScheduleKill { addr: a }]
    };
    let c = m1.conns[a];
    let w = ActionView::Write { side: Side::ToPeer, peer: Peer::Node(a), msg, token };
    match c.to_peer {
        ToView::Established => {
            let acts = pre + seq![w];
            assert(acts[acts.len() - 1] == w);
        },
        _ => {},
    }
}

/// A client's handshake on a connection we have not started makes the peer a client that needs
/// no connection from us, and the user hears that a client connected: the peer reported has
/// the type the handshake announced. No other state changes.
pub proof fn law_client_handshake_reports_a_client(
    m: Model,
    hard: Seq<SocketAddr>,
    our_type: OurType,
    addr: SocketAddr,
)
    requires
        m.conns.contains_key(addr),
        m.conns[addr].to_peer is NoConnection,
    ensures
        ({
            let r = wire_msg(m, hard, our_type, addr, MsgView::Handshake(Handshake::Client));
            &&& r.1 == seq![ActionView::Fire(EventView::ConnectedTo { peer: Peer::Client(addr) })]
            &&& r.0.conns.contains_key(addr)
            &&& r.0.conns[addr].to_peer is NotNeeded
            &&& r.0.conns[addr].from_peer == m.conns[addr].from_peer
            &&& forall|b: SocketAddr| b != addr ==> r.0.conns.contains_key(b) == m.conns.contains_key(b)
                && (#[trigger] r.0.conns[b]) == m.conns[b]
            &&& r.0.groups == m.groups
        }),
{
}

/// A handshake never reports a peer as connected under another type than the one it announced:
/// a client's handshake reports only `Peer::Client`, and a node's handshake, which only gets a
/// connection back, reports no connection at all.
pub proof fn law_handshake_reports_the_announced_type(
    m: Model,
    hard: Seq<SocketAddr>,
    our_type: OurType,
    addr: SocketAddr,
    h: Handshake,
)
    ensures
        ({
            let r = wire_msg(m, hard, our_type, addr, MsgView::Handshake(h));
            forall|i: int|
                0 <= i < r.1.len() ==> (#[trigger] r.1[i] matches ActionView::Fire(
                    EventView::ConnectedTo { peer },
                ) ==> h == Handshake::Client && peer == Peer::Client(addr))
        }),
{
    let r = wire_msg(m, hard, our_type, addr, MsgView::Handshake(h));
    if m.conns.contains_key(addr) && m.conns[addr].to_peer is NoConnection && h == Handshake::Node {
        let c = connect_to(m, our_type, addr, None, None);
        let existed = m.conns.contains_key(addr);
        assert(r.1 == c.1);
        assert(c.1 =~= seq![ActionView::Connect { addr }]);
    }
}

/// A peer connecting back to us, when our own connection to it is up and it belongs to no
/// bootstrap group, completes the connection: the user hears once that the node is connected,
/// and the new connection is read from. Nothing else is done and no other state changes.
pub proof fn law_completed_connection_is_reported(m: Model, addr: SocketAddr, keys: Seq<SocketAddr>)
    requires
        m.conns.contains_key(addr),
        m.conns[addr].to_peer is Established,
        m.conns[addr].from_peer is NoConnection,
        m.conns[addr].bootstrap_group is None,
    ensures
        ({
            let r = incoming(m, addr, keys);
            &&& r.1 == seq![
                ActionView::Fire(EventView::ConnectedTo { peer: Peer::Node(addr) }),
                ActionView::StartReading { addr },
            ]
            &&& r.0.conns.contains_key(addr)
            &&& r.0.conns[addr].is_complete()
            &&& r.0.conns[addr].to_peer is Established
            &&& r.0.conns[addr].from_peer == FromView::Established(Seq::empty())
            &&& forall|b: SocketAddr| b != addr ==> r.0.conns.contains_key(b) == m.conns.contains_key(b)
                && (#[trigger] r.0.conns[b]) == m.conns[b]
            &&& r.0.groups == m.groups
        }),
{
    assert(Seq::<ActionView>::empty() + seq![
        ActionView::Fire(EventView::ConnectedTo { peer: Peer::Node(addr) }),
        ActionView::StartReading { addr },
    ] =~= seq![
        ActionView::Fire(EventView::ConnectedTo { peer: Peer::Node(addr) }),
        ActionView::StartReading { addr },
    ]);
}

} // verus!
