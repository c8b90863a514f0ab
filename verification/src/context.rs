//! The connection context: the state of our connections with every peer, the bootstrap cache and
//! the bootstrap groups, and what happens to them on each request of the user and on each
//! outcome of the network.
//!
//! Every operation here is a step of a state machine. It changes the context and returns the
//! actions that the caller performs, in order: the messages to write on a QUIC connection, the
//! connections to open or cancel, the events for the user. The caller feeds the outcomes of
//! those actions back as further steps.

use crate::addr::SocketAddr;
use crate::bootstrap_cache::{peers_after_add, BootstrapCache, SYNC_EVERY};
use crate::conn_state::{
    msgs_view, sends_view, ConnView, Connection, FromPeer, FromView, Handshake, MsgView, PeerMsg,
    ToPeer, ToView,
};
use crate::errors::ConnectionError;
use crate::event::{Event, EventView, PeerError};
use crate::key_map::{keys_distinct, lemma_to_map_dom, lemma_to_map_index, to_map, AddrMap, KeyMap};
use crate::peer::{OurType, Peer};
use crate::utils::Token;
use vstd::prelude::*;

verus! {

/// Which of the two QUIC connections with a peer a message goes on.
#[derive(Debug, Clone, Copy, PartialEq, Eq, Structural)]
pub enum Side {
    /// The connection we made to the peer.
    ToPeer,
    /// The connection the peer made to us.
    FromPeer,
}

/// Something for the caller to do.
#[derive(Debug)]
pub enum Action {
    /// Write the message to the peer on a new uni-directional stream of the given connection.
    Write { side: Side, peer: Peer, msg: PeerMsg, token: Token },
    /// Start connecting to the node; the outcome comes back through `handle_new_connection_res`,
    /// or through `handle_connect_err` when the attempt is cancelled.
    Connect { addr: SocketAddr },
    /// Cancel the attempt to connect to the address.
    Terminate { addr: SocketAddr },
    /// Tell the user.
    Fire(Event),
    /// Start reading the streams of the new connection with the peer.
    StartReading { addr: SocketAddr },
    /// Call `kill_if_incomplete` for the address when the connection timeout has run out.
    ScheduleKill { addr: SocketAddr },
    /// Hand our external address to whoever asked for it.
    InformOurAddr { addr: SocketAddr },
    /// Write the bootstrap cache to disk.
    SyncCache,
    /// Report a failed communication with the peer, and the user message that was not sent.
    CommunicationError {
        peer_addr: SocketAddr,
        err: PeerError,
        unsent: Option<(Peer, Vec<u8>, Token)>,
    },
}

/// An action, as values.
pub enum ActionView {
    /// Write a message.
    Write { side: Side, peer: Peer, msg: MsgView, token: Token },
    /// Connect.
    Connect { addr: SocketAddr },
    /// Cancel a connection attempt.
    Terminate { addr: SocketAddr },
    /// Tell the user.
    Fire(EventView),
    /// Start reading.
    StartReading { addr: SocketAddr },
    /// Schedule the timeout.
    ScheduleKill { addr: SocketAddr },
    /// Hand over our address.
    InformOurAddr { addr: SocketAddr },
    /// Write the cache.
    SyncCache,
    /// Report a failed communication.
    CommunicationError {
        peer_addr: SocketAddr,
        err: PeerError,
        unsent: Option<(Peer, Seq<u8>, Token)>,
    },
}

impl View for Action {
    type V = ActionView;

    open spec fn view(&self) -> ActionView {
        match self {
            Action::Write { side, peer, msg, token } => ActionView::Write {
                side: *side,
                peer: *peer,
                msg: msg@,
                token: *token,
            },
            Action::Connect { addr } => ActionView::Connect { addr: *addr },
            Action::Terminate { addr } => ActionView::Terminate { addr: *addr },
            Action::Fire(e) => ActionView::Fire(e@),
            Action::StartReading { addr } => ActionView::StartReading { addr: *addr },
            Action::ScheduleKill { addr } => ActionView::ScheduleKill { addr: *addr },
            Action::InformOurAddr { addr } => ActionView::InformOurAddr { addr: *addr },
            Action::SyncCache => ActionView::SyncCache,
            Action::CommunicationError { peer_addr, err, unsent } => ActionView::CommunicationError {
                peer_addr: *peer_addr,
                err: *err,
                unsent: match unsent {
                    Some(u) => Some((u.0, u.1@, u.2)),
                    None => None,
                },
            },
        }
    }
}

/// The actions of a list.
pub open spec fn actions_view(s: Seq<Action>) -> Seq<ActionView> {
    s.map_values(|a: Action| a@)
}

/// The context as values: what the operations read and change.
#[verifier::ext_equal]
pub struct Model {
    /// The state of our connections with each peer.
    pub conns: Map<SocketAddr, ConnView>,
    /// The live bootstrap groups, each with whether it succeeded.
    pub groups: Map<u64, bool>,
    /// The cached peers, oldest first.
    pub peers: Seq<SocketAddr>,
    /// New peers cached since the cache was last written.
    pub add_count: nat,
    /// Whether someone waits for our external address.
    pub awaiting_echo: bool,
}

/// Well-formed: each state is stored under its peer's address, refers only to live groups, and
/// holds no handshake among the messages waiting to be handled.
pub open spec fn model_wf(m: Model) -> bool {
    forall|a: SocketAddr| #[trigger]
        m.conns.contains_key(a) ==> {
            &&& m.conns[a].peer_addr == a
            &&& (m.conns[a].bootstrap_group matches Some(g) ==> m.groups.contains_key(g))
            &&& (m.conns[a].from_peer matches FromView::Established(reads) ==> forall|i: int|
                0 <= i < reads.len() ==> !(#[trigger] reads[i] is Handshake))
        }
}

/// The messages waiting on a connection from a peer hold no handshake.
pub proof fn lemma_reads_no_handshake(m: Model, a: SocketAddr)
    requires
        model_wf(m),
        m.conns.contains_key(a),
        m.conns[a].from_peer is Established,
    ensures
        forall|i: int|
            0 <= i < m.conns[a].from_peer->0.len() ==> !(#[trigger] m.conns[a].from_peer->0[i] is Handshake),
{
}

/// Some connection state belongs to the group.
pub open spec fn group_in_use(conns: Map<SocketAddr, ConnView>, g: u64) -> bool {
    exists|a: SocketAddr| #[trigger] conns.contains_key(a) && conns[a].bootstrap_group == Some(g)
}

/// A group that nothing refers to any longer ends; one that ends before it succeeded reports a
/// bootstrap failure.
pub open spec fn release_group(m: Model, g: u64) -> (Model, Seq<ActionView>) {
    if m.groups.contains_key(g) && !group_in_use(m.conns, g) {
        (
            Model { groups: m.groups.remove(g), ..m },
            if m.groups[g] {
                Seq::empty()
            } else {
                seq![ActionView::Fire(EventView::BootstrapFailure)]
            },
        )
    } else {
        (m, Seq::empty())
    }
}

/// Dropping the state of the connection with `addr`: the user hears of a failed connection if
/// we contacted the peer or the connection had completed, a pending connection attempt is
/// cancelled, and the bootstrap group ends if this was its last member (unless `held`, the
/// group that the caller holds on to).
pub open spec fn drop_conn(m: Model, addr: SocketAddr, held: Option<u64>) -> (Model, Seq<ActionView>) {
    if !m.conns.contains_key(addr) {
        (m, Seq::empty())
    } else {
        let c = m.conns[addr];
        let m1 = Model { conns: m.conns.remove(addr), ..m };
        let a1: Seq<ActionView> = match c.drop_event() {
            Some(e) => seq![ActionView::Fire(e)],
            None => Seq::empty(),
        };
        let a2: Seq<ActionView> = if c.to_peer is Initiated {
            seq![ActionView::Terminate { addr }]
        } else {
            Seq::empty()
        };
        match c.bootstrap_group {
            Some(g) => if held == Some(g) {
                (m1, a1 + a2)
            } else {
                let r = release_group(m1, g);
                (r.0, a1 + a2 + r.1)
            },
            None => (m1, a1 + a2),
        }
    }
}

/// Adding a peer to the bootstrap cache; every `SYNC_EVERY` new peers the cache is written.
pub open spec fn cache_add(m: Model, hard: Seq<SocketAddr>, addr: SocketAddr) -> (Model, Seq<ActionView>) {
    let peers = peers_after_add(m.peers, hard, addr);
    if hard.contains(addr) || m.peers.contains(addr) {
        (Model { peers, ..m }, Seq::empty())
    } else if m.add_count + 1 == SYNC_EVERY {
        (Model { peers, add_count: 0, ..m }, seq![ActionView::SyncCache])
    } else {
        (Model { peers, add_count: m.add_count + 1, ..m }, Seq::empty())
    }
}

/// Handling a message from a peer we can answer on `side`. Whoever waited for our address stops
/// waiting, whatever the message.
pub open spec fn dispatch(
    m: Model,
    hard: Seq<SocketAddr>,
    peer: Peer,
    side: Side,
    msg: MsgView,
    we_contacted: bool,
) -> (Model, Seq<ActionView>) {
    let m0 = Model { awaiting_echo: false, ..m };
    match msg {
        MsgView::UserMsg(b) => {
            let ev = seq![ActionView::Fire(EventView::NewMessage { peer, msg: b })];
            if peer is Node && we_contacted {
                let r = cache_add(m0, hard, peer.addr_of());
                (r.0, ev + r.1)
            } else {
                (m0, ev)
            }
        },
        MsgView::EndpointEchoReq => (
            m0,
            seq![
                ActionView::Write {
                    side,
                    peer,
                    msg: MsgView::EndpointEchoResp(peer.addr_of()),
                    token: 0,
                },
            ],
        ),
        MsgView::EndpointEchoResp(a) => (
            m0,
            if m.awaiting_echo {
                seq![ActionView::InformOurAddr { addr: a }]
            } else {
                Seq::empty()
            },
        ),
        MsgView::Handshake(_) => (m0, Seq::empty()),
    }
}

/// Handling the messages in order.
pub open spec fn dispatch_all(
    m: Model,
    hard: Seq<SocketAddr>,
    peer: Peer,
    side: Side,
    msgs: Seq<MsgView>,
    we_contacted: bool,
) -> (Model, Seq<ActionView>)
    decreases msgs.len(),
{
    if msgs.len() == 0 {
        (m, Seq::empty())
    } else {
        let r1 = dispatch_all(m, hard, peer, side, msgs.drop_last(), we_contacted);
        let r2 = dispatch(r1.0, hard, peer, side, msgs.last(), we_contacted);
        (r2.0, r1.1 + r2.1)
    }
}

/// Handling messages reads and changes only the cache and whether someone waits for our
/// address.
pub proof fn lemma_dispatch_all_frame(
    m1: Model,
    m2: Model,
    hard: Seq<SocketAddr>,
    peer: Peer,
    side: Side,
    msgs: Seq<MsgView>,
    we_contacted: bool,
)
    requires
        m1.peers == m2.peers,
        m1.add_count == m2.add_count,
        m1.awaiting_echo == m2.awaiting_echo,
    ensures
        dispatch_all(m1, hard, peer, side, msgs, we_contacted).0.conns == m1.conns,
        dispatch_all(m1, hard, peer, side, msgs, we_contacted).0.groups == m1.groups,
        dispatch_all(m2, hard, peer, side, msgs, we_contacted).0.conns == m2.conns,
        dispatch_all(m2, hard, peer, side, msgs, we_contacted).0.groups == m2.groups,
        dispatch_all(m1, hard, peer, side, msgs, we_contacted).0.peers == dispatch_all(
            m2,
            hard,
            peer,
            side,
            msgs,
            we_contacted,
        ).0.peers,
        dispatch_all(m1, hard, peer, side, msgs, we_contacted).0.add_count == dispatch_all(
            m2,
            hard,
            peer,
            side,
            msgs,
            we_contacted,
        ).0.add_count,
        dispatch_all(m1, hard, peer, side, msgs, we_contacted).0.awaiting_echo == dispatch_all(
            m2,
            hard,
            peer,
            side,
            msgs,
            we_contacted,
        ).0.awaiting_echo,
        dispatch_all(m1, hard, peer, side, msgs, we_contacted).1 == dispatch_all(
            m2,
            hard,
            peer,
            side,
            msgs,
            we_contacted,
        ).1,
    decreases msgs.len(),
{
    if msgs.len() > 0 {
        lemma_dispatch_all_frame(m1, m2, hard, peer, side, msgs.drop_last(), we_contacted);
    }
}

/// Writing the messages to the node on our connection to it, in order.
pub open spec fn send_writes(addr: SocketAddr, sends: Seq<(MsgView, Token)>) -> Seq<ActionView> {
    sends.map_values(
        |p: (MsgView, Token)|
            ActionView::Write { side: Side::ToPeer, peer: Peer::Node(addr), msg: p.0, token: p.1 },
    )
}

/// `keys` lists each peer with a connection state once.
pub open spec fn is_key_order(keys: Seq<SocketAddr>, conns: Map<SocketAddr, ConnView>) -> bool {
    &&& keys.no_duplicates()
    &&& forall|a: SocketAddr| #[trigger] keys.contains(a) <==> conns.contains_key(a)
}

/// Cancelling and dropping, in the order of `keys`, every member of the group but the caller.
pub open spec fn remove_members(m: Model, g: u64, keys: Seq<SocketAddr>) -> (Model, Seq<ActionView>)
    decreases keys.len(),
{
    if keys.len() == 0 {
        (m, Seq::empty())
    } else {
        let r1 = remove_members(m, g, keys.drop_last());
        let k = keys.last();
        if r1.0.conns.contains_key(k) && r1.0.conns[k].bootstrap_group == Some(g) {
            let r2 = drop_conn(r1.0, k, Some(g));
            (r2.0, r1.1 + seq![ActionView::Terminate { addr: k }] + r2.1)
        } else {
            r1
        }
    }
}

/// Ending a bootstrap group from one of its members, the caller: the group is marked
/// successful if that is why, the other members are cancelled and dropped, and then the caller
/// lets go of the group.
pub open spec fn terminate(m: Model, g: u64, keys: Seq<SocketAddr>, success: bool) -> (Model, Seq<ActionView>) {
    let m0 = if success && m.groups.contains_key(g) {
        Model { groups: m.groups.insert(g, true), ..m }
    } else {
        m
    };
    let r1 = remove_members(m0, g, keys);
    let r2 = release_group(r1.0, g);
    (r2.0, r1.1 + r2.1)
}

/// Connecting to a peer that we have a connection state for, with no connection to it, would
/// expect a client (us) to be connected to by the peer: the library refuses this.
pub open spec fn connect_panics(m: Model, our_type: OurType, addr: SocketAddr) -> bool {
    &&& our_type == OurType::Client
    &&& m.conns.contains_key(addr)
    &&& m.conns[addr].to_peer is NoConnection
    &&& !(m.conns[addr].from_peer is NoConnection)
}

/// Starting to connect to a peer, with a message to send once connected, as a member of a
/// bootstrap group. Refused when a connection to the peer exists or is being made.
pub open spec fn connect_to(
    m: Model,
    our_type: OurType,
    addr: SocketAddr,
    send_after: Option<(MsgView, Token)>,
    group: Option<u64>,
) -> (Model, Seq<ActionView>, Result<(), PeerError>) {
    if m.conns.contains_key(addr) && !(m.conns[addr].to_peer is NoConnection) {
        (m, Seq::empty(), Err(PeerError::DuplicateConnectionToPeer { peer_addr: addr }))
    } else {
        let existed = m.conns.contains_key(addr);
        let c = if existed {
            m.conns[addr]
        } else {
            ConnView::fresh(addr, group)
        };
        let c1 = ConnView {
            to_peer: ToView::Initiated(
                match send_after {
                    Some(p) => seq![p],
                    None => Seq::empty(),
                },
            ),
            from_peer: if our_type == OurType::Client {
                FromView::NotNeeded
            } else {
                c.from_peer
            },
            bootstrap_group: if c.bootstrap_group is None {
                group
            } else {
                c.bootstrap_group
            },
            ..c
        };
        let pre: Seq<ActionView> = if existed {
            Seq::empty()
        } else {
            seq![ActionView::ScheduleKill { addr }]
        };
        (
            Model { conns: m.conns.insert(addr, c1), ..m },
            pre + seq![ActionView::Connect { addr }],
            Ok(()),
        )
    }
}

/// The outcome of a failed connection attempt: the peer's state is dropped, unless the attempt
/// was refused as a duplicate.
pub open spec fn connect_err(m: Model, addr: SocketAddr, err: PeerError) -> (Model, Seq<ActionView>) {
    if err is DuplicateConnectionToPeer {
        (m, Seq::empty())
    } else {
        drop_conn(m, addr, None)
    }
}

/// The event for a completed connection to a node: a bootstrap if the attempt belonged to a
/// group.
pub open spec fn connected_event(c: ConnView, addr: SocketAddr) -> EventView {
    match c.bootstrap_group {
        Some(_) => EventView::BootstrappedTo { node: addr },
        None => EventView::ConnectedTo { peer: Peer::Node(addr) },
    }
}

/// Ending the group of a connection attempt that succeeded, if it had one.
pub open spec fn end_group(m: Model, group: Option<u64>, keys: Seq<SocketAddr>) -> (Model, Seq<ActionView>) {
    match group {
        Some(g) => terminate(m, g, keys, true),
        None => (m, Seq::empty()),
    }
}

/// Our connection to a node was made. If we contacted the peer it is cached. With no connection
/// from the peer yet, we introduce ourselves as a node; if we are a client, as a client, and the
/// connection is complete; if the peer is connected to us already, the connection is complete
/// and the messages it sent are handled. Then the messages waiting for the connection are
/// written, and a bootstrap group it belonged to is ended as successful.
pub open spec fn connected(m: Model, hard: Seq<SocketAddr>, addr: SocketAddr, keys: Seq<SocketAddr>) -> (Model, Seq<ActionView>) {
    if !m.conns.contains_key(addr) {
        (m, Seq::empty())
    } else {
        let c = m.conns[addr];
        let sends = match c.to_peer {
            ToView::Initiated(s) => s,
            _ => Seq::empty(),
        };
        let r1 = if c.we_contacted_peer {
            cache_add(m, hard, addr)
        } else {
            (m, Seq::empty())
        };
        let ev = connected_event(c, addr);
        match c.from_peer {
            FromView::NoConnection => {
                let c1 = ConnView { to_peer: ToView::Established, ..c };
                (
                    Model { conns: r1.0.conns.insert(addr, c1), ..r1.0 },
                    r1.1 + seq![
                        ActionView::Write {
                            side: Side::ToPeer,
                            peer: Peer::Node(addr),
                            msg: MsgView::Handshake(Handshake::Node),
                            token: 0,
                        },
                    ] + send_writes(addr, sends),
                )
            },
            FromView::NotNeeded => {
                let c1 = ConnView { to_peer: ToView::Established, bootstrap_group: None, ..c };
                let r3 = end_group(
                    Model { conns: r1.0.conns.insert(addr, c1), ..r1.0 },
                    c.bootstrap_group,
                    keys,
                );
                (
                    r3.0,
                    r1.1 + seq![
                        ActionView::Write {
                            side: Side::ToPeer,
                            peer: Peer::Node(addr),
                            msg: MsgView::Handshake(Handshake::Client),
                            token: 0,
                        },
                        ActionView::Fire(ev),
                    ] + send_writes(addr, sends) + r3.1 + seq![ActionView::StartReading { addr }],
                )
            },
            FromView::Established(reads) => {
                let r2 = dispatch_all(
                    r1.0,
                    hard,
                    Peer::Node(addr),
                    Side::ToPeer,
                    reads,
                    c.we_contacted_peer,
                );
                let c1 = ConnView {
                    to_peer: ToView::Established,
                    from_peer: FromView::Established(Seq::empty()),
                    bootstrap_group: None,
                    ..c
                };
                let r3 = end_group(
                    Model { conns: r2.0.conns.insert(addr, c1), ..r2.0 },
                    c.bootstrap_group,
                    keys,
                );
                (r3.0, r1.1 + seq![ActionView::Fire(ev)] + r2.1 + send_writes(addr, sends) + r3.1)
            },
        }
    }
}

/// Writing to a peer on the connection that can carry the message, without connecting.
pub open spec fn write_to(m: Model, peer: Peer, msg: MsgView, token: Token) -> Result<Seq<ActionView>, PeerError> {
    let a = peer.addr_of();
    if !m.conns.contains_key(a) {
        Err(PeerError::UnknownPeer)
    } else {
        match m.conns[a].to_peer {
            ToView::NotNeeded => if m.conns[a].from_peer is Established {
                Ok(seq![ActionView::Write { side: Side::FromPeer, peer, msg, token }])
            } else {
                Err(PeerError::NotConnected { peer_addr: a })
            },
            ToView::Established => Ok(seq![ActionView::Write { side: Side::ToPeer, peer, msg, token }]),
            _ => Err(PeerError::InvalidState { peer_addr: a }),
        }
    }
}

/// Sending to a peer. A client is written to if it can be, and sending fails otherwise; a node
/// is connected to first if need be, and the message waits for the connection.
pub open spec fn try_write(m: Model, our_type: OurType, peer: Peer, msg: MsgView, token: Token) -> (Model, Result<Seq<ActionView>, PeerError>) {
    match peer {
        Peer::Client(a) => (m, write_to(m, peer, msg, token)),
        Peer::Node(a) => {
            let existed = m.conns.contains_key(a);
            let m1 = if existed {
                m
            } else {
                Model { conns: m.conns.insert(a, ConnView::fresh(a, None)), ..m }
            };
            let pre: Seq<ActionView> = if existed {
                Seq::empty()
            } else {
                seq![ActionView::ScheduleKill { addr: a }]
            };
            let c = m1.conns[a];
            match c.to_peer {
                ToView::NoConnection => {
                    let r = connect_to(m1, our_type, a, Some((msg, token)), None);
                    (r.0, Ok(pre + r.1))
                },
                ToView::NotNeeded => (m1, Ok(pre)),
                ToView::Initiated(ps) => (
                    Model {
                        conns: m1.conns.insert(
                            a,
                            ConnView { to_peer: ToView::Initiated(ps.push((msg, token))), ..c },
                        ),
                        ..m1
                    },
                    Ok(pre),
                ),
                ToView::Established => (
                    m1,
                    Ok(
                        pre + seq![
                            ActionView::Write {
                                side: Side::ToPeer,
                                peer: Peer::Node(a),
                                msg,
                                token,
                            },
                        ],
                    ),
                ),
            }
        },
    }
}

/// How a failed send to a peer is reported: the peer's connection is dropped, and a user
/// message that was not sent is handed back.
pub open spec fn send_failure_spec(peer: Peer, err: PeerError, msg: MsgView, token: Token) -> ActionView {
    ActionView::CommunicationError {
        peer_addr: peer.addr_of(),
        err,
        unsent: match msg {
            MsgView::UserMsg(b) => Some((peer, b, token)),
            _ => None,
        },
    }
}

/// A message from a peer. A client's handshake makes the peer a client; a node's handshake gets
/// a connection back if we have none. Other messages are handled on the connection that can
/// carry the answer, or wait until our connection to the peer is made.
pub open spec fn wire_msg(m: Model, hard: Seq<SocketAddr>, our_type: OurType, addr: SocketAddr, msg: MsgView) -> (Model, Seq<ActionView>) {
    if !m.conns.contains_key(addr) {
        (m, Seq::empty())
    } else {
        let c = m.conns[addr];
        match msg {
            MsgView::Handshake(Handshake::Client) => if c.to_peer is NoConnection {
                (
                    Model { conns: m.conns.insert(addr, ConnView { to_peer: ToView::NotNeeded, ..c }), ..m },
                    seq![ActionView::Fire(EventView::ConnectedTo { peer: Peer::Client(addr) })],
                )
            } else {
                (m, Seq::empty())
            },
            MsgView::Handshake(Handshake::Node) => if c.to_peer is NoConnection {
                let r = connect_to(m, our_type, addr, None, None);
                (r.0, r.1)
            } else {
                (m, Seq::empty())
            },
            _ => match c.from_peer {
                FromView::NotNeeded => if c.to_peer is Established {
                    dispatch(m, hard, Peer::Node(addr), Side::ToPeer, msg, c.we_contacted_peer)
                } else {
                    (m, Seq::empty())
                },
                FromView::Established(reads) => match c.to_peer {
                    ToView::NotNeeded => dispatch(
                        m,
                        hard,
                        Peer::Client(addr),
                        Side::FromPeer,
                        msg,
                        c.we_contacted_peer,
                    ),
                    ToView::Established => dispatch(
                        m,
                        hard,
                        Peer::Node(addr),
                        Side::ToPeer,
                        msg,
                        c.we_contacted_peer,
                    ),
                    _ => (
                        Model {
                            conns: m.conns.insert(
                                addr,
                                ConnView { from_peer: FromView::Established(reads.push(msg)), ..c },
                            ),
                            ..m
                        },
                        Seq::empty(),
                    ),
                },
                FromView::NoConnection => (m, Seq::empty()),
            },
        }
    }
}

/// A peer connected to us. A second connection from the same peer is refused. If we are
/// connected to the peer already, the connection is complete: it is reported, as a bootstrap if
/// the peer belonged to a group, which then ends as successful; if that group had succeeded
/// already, the peer is reported as a failed communication instead. Otherwise the new
/// connection is read from.
pub open spec fn incoming(m: Model, addr: SocketAddr, keys: Seq<SocketAddr>) -> (Model, Seq<ActionView>) {
    let existed = m.conns.contains_key(addr);
    let m1 = if existed {
        m
    } else {
        Model { conns: m.conns.insert(addr, ConnView::fresh(addr, None)), ..m }
    };
    let pre: Seq<ActionView> = if existed {
        Seq::empty()
    } else {
        seq![ActionView::ScheduleKill { addr }]
    };
    let c = m1.conns[addr];
    if !(c.from_peer is NoConnection) {
        (m1, pre)
    } else {
        let c1 = ConnView { from_peer: FromView::Established(Seq::empty()), ..c };
        if c.to_peer is Established {
            match c.bootstrap_group {
                Some(g) => {
                    let m2 = Model {
                        conns: m1.conns.insert(addr, ConnView { bootstrap_group: None, ..c1 }),
                        ..m1
                    };
                    if m1.groups[g] {
                        let r = release_group(m2, g);
                        (
                            r.0,
                            pre + r.1 + seq![
                                ActionView::CommunicationError {
                                    peer_addr: addr,
                                    err: PeerError::ConnectionCancelled,
                                    unsent: None,
                                },
                            ],
                        )
                    } else {
                        let r = terminate(m2, g, keys, true);
                        (
                            r.0,
                            pre + seq![ActionView::Fire(EventView::BootstrappedTo { node: addr })]
                                + r.1 + seq![ActionView::StartReading { addr }],
                        )
                    }
                },
                None => (
                    Model { conns: m1.conns.insert(addr, c1), ..m1 },
                    pre + seq![
                        ActionView::Fire(EventView::ConnectedTo { peer: Peer::Node(addr) }),
                        ActionView::StartReading { addr },
                    ],
                ),
            }
        } else {
            (Model { conns: m1.conns.insert(addr, c1), ..m1 }, pre + seq![ActionView::StartReading { addr }])
        }
    }
}

/// When the timeout of a connection runs out, an incomplete one is dropped.
pub open spec fn kill(m: Model, addr: SocketAddr) -> (Model, Seq<ActionView>) {
    if m.conns.contains_key(addr) && m.conns[addr].is_incomplete() {
        drop_conn(m, addr, None)
    } else {
        (m, Seq::empty())
    }
}

/// Connecting to the nodes in order as members of the group; refused attempts change nothing.
pub open spec fn connect_all(m: Model, our_type: OurType, nodes: Seq<SocketAddr>, g: u64) -> (Model, Seq<ActionView>)
    decreases nodes.len(),
{
    if nodes.len() == 0 {
        (m, Seq::empty())
    } else {
        let r1 = connect_all(m, our_type, nodes.drop_last(), g);
        let r2 = connect_to(r1.0, our_type, nodes.last(), None, Some(g));
        (r2.0, r1.1 + r2.1)
    }
}

/// The nodes to bootstrap off: the cached peers, most recent first, then the hard-coded
/// contacts.
pub open spec fn bootstrap_nodes(peers: Seq<SocketAddr>, hard: Seq<SocketAddr>) -> Seq<SocketAddr> {
    peers.reverse() + hard
}

/// Bootstrapping: a new group `g` connects to every bootstrap node; the group ends at once if no
/// attempt joined it.
pub open spec fn bootstrap(m: Model, our_type: OurType, hard: Seq<SocketAddr>, g: u64) -> (Model, Seq<ActionView>) {
    let m0 = Model { groups: m.groups.insert(g, false), ..m };
    let r1 = connect_all(m0, our_type, bootstrap_nodes(m.peers, hard), g);
    let r2 = release_group(r1.0, g);
    (r2.0, r1.1 + r2.1)
}

/// A message with its token, as values.
pub open spec fn send_view(p: Option<(PeerMsg, Token)>) -> Option<(MsgView, Token)> {
    match p {
        Some(p) => Some((p.0@, p.1)),
        None => None,
    }
}

/// The actions of a list with one more.
pub proof fn lemma_actions_push(s: Seq<Action>, a: Action)
    ensures
        actions_view(s.push(a)) == actions_view(s).push(a@),
{
    assert(actions_view(s.push(a)) =~= actions_view(s).push(a@));
}

/// The actions of two lists one after the other.
pub proof fn lemma_actions_add(s: Seq<Action>, t: Seq<Action>)
    ensures
        actions_view(s + t) == actions_view(s) + actions_view(t),
{
    assert(actions_view(s + t) =~= actions_view(s) + actions_view(t));
}

/// Appends `more` to `acts`.
fn append_actions(acts: &mut Vec<Action>, more: Vec<Action>)
    ensures
        actions_view(final(acts)@) == actions_view(old(acts)@) + actions_view(more@),
{
    let mut more = more;
    proof {
        lemma_actions_add(acts@, more@);
    }
    acts.append(&mut more);
}

/// Adds `a` to `acts`.
fn push_action(acts: &mut Vec<Action>, a: Action)
    ensures
        actions_view(final(acts)@) == actions_view(old(acts)@).push(a@),
{
    proof {
        lemma_actions_push(acts@, a);
    }
    acts.push(a);
}

/// Adds the writes of the waiting messages to the node, in order.
fn write_sends(acts: &mut Vec<Action>, addr: SocketAddr, sends: Vec<(PeerMsg, Token)>)
    ensures
        actions_view(final(acts)@) == actions_view(old(acts)@) + send_writes(addr, sends_view(sends@)),
{
    let ghost start = actions_view(acts@);
    let ghost all = sends@;
    assert(all.len() == sends.len());
    let mut rest = sends;
    let mut i: usize = 0;
    proof {
        assert(send_writes(addr, sends_view(all.take(0))) =~= Seq::<ActionView>::empty());
        assert(start + Seq::<ActionView>::empty() =~= start);
    }
    while rest.len() > 0
        invariant
            i <= all.len(),
            all.len() <= usize::MAX,
            rest@ == all.subrange(i as int, all.len() as int),
            actions_view(acts@) == start + send_writes(addr, sends_view(all.take(i as int))),
        decreases rest.len(),
    {
        let (msg, token) = rest.remove(0);
        assert((msg, token) == all[i as int]);
        push_action(&mut *acts, Action::Write { side: Side::ToPeer, peer: Peer::Node(addr), msg, token });
        proof {
            assert(send_writes(addr, sends_view(all.take(i + 1))) =~= send_writes(
                addr,
                sends_view(all.take(i as int)),
            ).push(
                ActionView::Write {
                    side: Side::ToPeer,
                    peer: Peer::Node(addr),
                    msg: all[i as int].0@,
                    token: all[i as int].1,
                },
            ));
        }
        i = i + 1;
    }
    assert(all.take(i as int) =~= all);
}

/// The bootstrap cache as a model, with nothing else in it.
pub open spec fn cache_model(peers: Seq<SocketAddr>, add_count: nat) -> Model {
    Model { conns: Map::empty(), groups: Map::empty(), peers, add_count, awaiting_echo: false }
}

/// A user message from `peer`: it is reported, and a node that we contacted is moved to the
/// top of the bootstrap cache (added if new).
pub fn handle_user_msg(peer: Peer, msg: Vec<u8>, bootstrap_cache: &mut BootstrapCache, we_contacted_peer: bool) -> (r: Vec<Action>)
    requires
        old(bootstrap_cache).wf(),
    ensures
        final(bootstrap_cache).wf(),
        final(bootstrap_cache).hard_coded_view() == old(bootstrap_cache).hard_coded_view(),
        final(bootstrap_cache).cache_path_view() == old(bootstrap_cache).cache_path_view(),
        peer is Node && we_contacted_peer ==> {
            let c = cache_add(
                cache_model(old(bootstrap_cache).peers_view(), old(bootstrap_cache).add_count_view()),
                old(bootstrap_cache).hard_coded_view(),
                peer.addr_of(),
            );
            &&& final(bootstrap_cache).peers_view() == c.0.peers
            &&& final(bootstrap_cache).add_count_view() == c.0.add_count
            &&& actions_view(r@) == seq![ActionView::Fire(EventView::NewMessage { peer, msg: msg@ })] + c.1
        },
        !(peer is Node && we_contacted_peer) ==> {
            &&& final(bootstrap_cache).peers_view() == old(bootstrap_cache).peers_view()
            &&& final(bootstrap_cache).add_count_view() == old(bootstrap_cache).add_count_view()
            &&& actions_view(r@) == seq![ActionView::Fire(EventView::NewMessage { peer, msg: msg@ })]
        },
{
    let ghost mv = msg@;
    let mut acts: Vec<Action> = Vec::new();
    push_action(&mut acts, Action::Fire(Event::NewMessage { peer, msg }));
    proof {
        assert(actions_view(acts@) =~= seq![ActionView::Fire(EventView::NewMessage { peer, msg: mv })]);
    }
    if peer.is_node() && we_contacted_peer {
        let sync = bootstrap_cache.add_peer(peer.peer_addr());
        if sync {
            push_action(&mut acts, Action::SyncCache);
        }
        proof {
            let ev = seq![ActionView::Fire(EventView::NewMessage { peer, msg: mv })];
            assert(ev + Seq::<ActionView>::empty() =~= ev);
            assert(ev.push(ActionView::SyncCache) =~= ev + seq![ActionView::SyncCache]);
        }
    }
    acts
}

/// The connection context.
#[derive(Debug)]
pub struct Context {
    /// Whether we are a node or a client.
    pub our_type: OurType,
    /// The state of our connections with each peer.
    pub connections: AddrMap<Connection>,
    /// The peers to bootstrap off.
    pub bootstrap_cache: BootstrapCache,
    /// Whether someone waits for our external address.
    pub awaiting_echo: bool,
    /// The live bootstrap groups, each with whether it succeeded.
    pub groups: KeyMap<u64, bool>,
    /// The identifier of the next bootstrap group.
    pub next_group_id: u64,
}

impl Context {
    /// The connection states, as values.
    pub open spec fn conns_view(&self) -> Map<SocketAddr, ConnView> {
        self.connections.view_map().map_values(|c: Connection| c@)
    }

    /// The context, as values.
    pub open spec fn model(&self) -> Model {
        Model {
            conns: self.conns_view(),
            groups: self.groups.view_map(),
            peers: self.bootstrap_cache.peers_view(),
            add_count: self.bootstrap_cache.add_count_view(),
            awaiting_echo: self.awaiting_echo,
        }
    }

    /// The hard-coded contacts.
    pub open spec fn hard(&self) -> Seq<SocketAddr> {
        self.bootstrap_cache.hard_coded_view()
    }

    /// Well-formed: the maps and the cache are, so is the model, and every live group was
    /// numbered before the next one.
    pub open spec fn wf(&self) -> bool {
        &&& self.connections.wf()
        &&& self.groups.wf()
        &&& self.bootstrap_cache.wf()
        &&& model_wf(self.model())
        &&& forall|g: u64| #[trigger] self.groups.view_map().contains_key(g) ==> g < self.next_group_id
    }

    /// What no operation changes but `start`, which numbers a new group.
    pub open spec fn same_setting(&self, other: &Context) -> bool {
        &&& self.our_type == other.our_type
        &&& self.hard() == other.hard()
        &&& self.bootstrap_cache.cache_path_view() == other.bootstrap_cache.cache_path_view()
    }

    /// A context with no connection and no bootstrap group.
    pub fn new(our_type: OurType, bootstrap_cache: BootstrapCache) -> (r: Context)
        requires
            bootstrap_cache.wf(),
        ensures
            r.wf(),
            r.our_type == our_type,
            r.bootstrap_cache == bootstrap_cache,
            r.model().conns == Map::<SocketAddr, ConnView>::empty(),
            r.model().groups == Map::<u64, bool>::empty(),
            !r.awaiting_echo,
    {
        let r = Context {
            our_type,
            connections: KeyMap::new(),
            bootstrap_cache,
            awaiting_echo: false,
            groups: KeyMap::new(),
            next_group_id: 0,
        };
        assert(r.model().conns =~= Map::<SocketAddr, ConnView>::empty());
        r
    }

    /// Takes out the state of the connection with `addr`.
    fn take_conn(&mut self, addr: &SocketAddr) -> (r: Option<Connection>)
        requires
            old(self).connections.wf(),
        ensures
            final(self).connections.wf(),
            final(self).conns_view() == old(self).conns_view().remove(*addr),
            r matches Some(c) ==> old(self).conns_view().contains_key(*addr) && c@ == old(
                self,
            ).conns_view()[*addr],
            r is None ==> !old(self).conns_view().contains_key(*addr),
            final(self).our_type == old(self).our_type,
            final(self).bootstrap_cache == old(self).bootstrap_cache,
            final(self).awaiting_echo == old(self).awaiting_echo,
            final(self).groups == old(self).groups,
            final(self).next_group_id == old(self).next_group_id,
    {
        let r = self.connections.remove(addr);
        assert(self.conns_view() =~= old(self).conns_view().remove(*addr));
        r
    }

    /// Puts back the state of a connection, under its peer's address.
    fn put_conn(&mut self, c: Connection)
        requires
            old(self).connections.wf(),
        ensures
            final(self).connections.wf(),
            final(self).conns_view() == old(self).conns_view().insert(c.peer_addr, c@),
            final(self).our_type == old(self).our_type,
            final(self).bootstrap_cache == old(self).bootstrap_cache,
            final(self).awaiting_echo == old(self).awaiting_echo,
            final(self).groups == old(self).groups,
            final(self).next_group_id == old(self).next_group_id,
    {
        let ghost cv = c@;
        let addr = c.peer_addr;
        let _ = self.connections.insert(addr, c);
        assert(self.conns_view() =~= old(self).conns_view().insert(addr, cv));
    }

    /// Whether some connection state belongs to the group.
    fn group_in_use(&self, g: u64) -> (r: bool)
        requires
            self.connections.wf(),
        ensures
            r == group_in_use(self.conns_view(), g),
    {
        let n = self.connections.len();
        let mut i: usize = 0;
        proof {
            self.connections.lemma_view();
        }
        while i < n
            invariant
                self.connections.wf(),
                n == self.connections.entries_view().len(),
                self.connections.view_map() == to_map(self.connections.entries_view()),
                keys_distinct(self.connections.entries_view()),
                i <= n,
                forall|j: int|
                    0 <= j < i ==> #[trigger] self.connections.entries_view()[j].1.bootstrap_group
                        != Some(g),
            decreases n - i,
        {
            let (a, c) = self.connections.value_at(i);
            if c.bootstrap_group == Some(g) {
                assert(self.conns_view().contains_key(*a));
                return true;
            }
            i = i + 1;
        }
        assert forall|a: SocketAddr| #[trigger]
            self.conns_view().contains_key(a) implies self.conns_view()[a].bootstrap_group
            != Some(g) by {
            lemma_to_map_dom(self.connections.entries_view(), a);
            let j = choose|j: int|
                0 <= j < self.connections.entries_view().len()
                    && self.connections.entries_view()[j].0 == a;
            lemma_to_map_index(self.connections.entries_view(), j);
            assert(self.connections.entries_view()[j].1.bootstrap_group != Some(g));
        }
        false
    }

    /// Ends the group if nothing refers to it any longer.
    fn release_group(&mut self, g: u64) -> (r: Vec<Action>)
        requires
            old(self).wf(),
        ensures
            final(self).wf(),
            final(self).same_setting(old(self)),
            final(self).next_group_id == old(self).next_group_id,
            final(self).model() == release_group(old(self).model(), g).0,
            actions_view(r@) == release_group(old(self).model(), g).1,
    {
        let mut acts: Vec<Action> = Vec::new();
        let in_use = self.group_in_use(g);
        if !in_use {
            match self.groups.remove(&g) {
                Some(successful) => {
                    if !successful {
                        push_action(&mut acts, Action::Fire(Event::BootstrapFailure));
                    }
                },
                None => {},
            }
        }
        proof {
            let m = old(self).model();
            assert(actions_view(Seq::<Action>::empty()) =~= Seq::<ActionView>::empty());
            if m.groups.contains_key(g) && !group_in_use(m.conns, g) {
                assert(self.model() =~= Model { groups: m.groups.remove(g), ..m });
            } else {
                assert(self.model() =~= m);
            }
        }
        acts
    }

    /// Drops the state of the connection with `addr`, with all that follows from it; the group
    /// `held` stays, as the caller holds on to it.
    fn drop_connection(&mut self, addr: &SocketAddr, held: Option<u64>) -> (r: Vec<Action>)
        requires
            old(self).wf(),
        ensures
            final(self).wf(),
            final(self).same_setting(old(self)),
            final(self).next_group_id == old(self).next_group_id,
            final(self).model() == drop_conn(old(self).model(), *addr, held).0,
            actions_view(r@) == drop_conn(old(self).model(), *addr, held).1,
    {
        let ghost m = old(self).model();
        let mut acts: Vec<Action> = Vec::new();
        proof {
            assert(actions_view(acts@) =~= Seq::<ActionView>::empty());
        }
        match self.take_conn(addr) {
            None => {
                assert(self.model() =~= m);
            },
            Some(c) => {
                let ghost cv = c@;
                let ghost m1 = Model { conns: m.conns.remove(*addr), ..m };
                assert(self.model() =~= m1);
                match c.drop_event() {
                    Some(e) => push_action(&mut acts, Action::Fire(e)),
                    None => {},
                }
                if c.to_peer.is_initiated() {
                    push_action(&mut acts, Action::Terminate { addr: *addr });
                }
                let ghost a12 = actions_view(acts@);
                match c.bootstrap_group {
                    Some(g) => {
                        let is_held = match held {
                            Some(h) => h == g,
                            None => false,
                        };
                        if !is_held {
                            let more = self.release_group(g);
                            append_actions(&mut acts, more);
                        } else {
                            assert(a12 + Seq::<ActionView>::empty() =~= a12);
                        }
                    },
                    None => {},
                }
            },
        }
        acts
    }

    /// Adds the peer to the bootstrap cache.
    fn cache_add(&mut self, addr: SocketAddr) -> (r: Vec<Action>)
        requires
            old(self).wf(),
        ensures
            final(self).wf(),
            final(self).same_setting(old(self)),
            final(self).next_group_id == old(self).next_group_id,
            final(self).connections == old(self).connections,
            final(self).model() == cache_add(old(self).model(), old(self).hard(), addr).0,
            actions_view(r@) == cache_add(old(self).model(), old(self).hard(), addr).1,
    {
        let ghost m = old(self).model();
        let mut acts: Vec<Action> = Vec::new();
        let sync = self.bootstrap_cache.add_peer(addr);
        if sync {
            push_action(&mut acts, Action::SyncCache);
        }
        proof {
            assert(actions_view(Seq::<Action>::empty()) =~= Seq::<ActionView>::empty());
            assert(self.model() =~= cache_add(m, old(self).hard(), addr).0);
        }
        acts
    }

    /// Handles a message from `peer`, answering on `side`: a user message is reported (and a
    /// node we contacted is cached), an echo request is answered with the address we see the
    /// peer at, an echo response is handed to whoever waited for our address. Whoever waited
    /// stops waiting, whatever the message.
    pub fn dispatch_wire_msg(&mut self, peer: Peer, side: Side, msg: PeerMsg, we_contacted: bool) -> (r: Vec<Action>)
        requires
            old(self).wf(),
            !(msg@ is Handshake),
        ensures
            final(self).wf(),
            final(self).same_setting(old(self)),
            final(self).next_group_id == old(self).next_group_id,
            final(self).connections == old(self).connections,
            final(self).model() == dispatch(
                old(self).model(),
                old(self).hard(),
                peer,
                side,
                msg@,
                we_contacted,
            ).0,
            actions_view(r@) == dispatch(
                old(self).model(),
                old(self).hard(),
                peer,
                side,
                msg@,
                we_contacted,
            ).1,
    {
        let ghost m = old(self).model();
        let inform = self.awaiting_echo;
        self.awaiting_echo = false;
        let ghost m0 = self.model();
        assert(m0 =~= Model { awaiting_echo: false, ..m });
        let mut acts: Vec<Action> = Vec::new();
        proof {
            assert(actions_view(acts@) =~= Seq::<ActionView>::empty());
        }
        match msg {
            PeerMsg::UserMsg(b) => {
                acts = handle_user_msg(peer, b, &mut self.bootstrap_cache, we_contacted);
                proof {
                    if peer is Node && we_contacted {
                        assert(self.model() =~= cache_add(m0, self.hard(), peer.addr_of()).0);
                    } else {
                        assert(self.model() =~= m0);
                    }
                }
            },
            PeerMsg::EndpointEchoReq => {
                push_action(
                    &mut acts,
                    Action::Write {
                        side,
                        peer,
                        msg: PeerMsg::EndpointEchoResp(peer.peer_addr()),
                        token: 0,
                    },
                );
            },
            PeerMsg::EndpointEchoResp(a) => {
                if inform {
                    push_action(&mut acts, Action::InformOurAddr { addr: a });
                }
            },
            PeerMsg::Handshake(_) => {},
        }
        acts
    }

    /// Handles the messages from `peer` in order, answering on `side`.
    fn dispatch_all(&mut self, peer: Peer, side: Side, msgs: Vec<PeerMsg>, we_contacted: bool) -> (r: Vec<Action>)
        requires
            old(self).wf(),
            forall|i: int| 0 <= i < msgs@.len() ==> !(#[trigger] msgs@[i]@ is Handshake),
        ensures
            final(self).wf(),
            final(self).same_setting(old(self)),
            final(self).next_group_id == old(self).next_group_id,
            final(self).connections == old(self).connections,
            final(self).model() == dispatch_all(
                old(self).model(),
                old(self).hard(),
                peer,
                side,
                msgs_view(msgs@),
                we_contacted,
            ).0,
            actions_view(r@) == dispatch_all(
                old(self).model(),
                old(self).hard(),
                peer,
                side,
                msgs_view(msgs@),
                we_contacted,
            ).1,
    {
        let ghost m = old(self).model();
        let ghost hard = old(self).hard();
        let ghost all = msgs@;
        assert(all.len() == msgs.len());
        let mut rest = msgs;
        let mut acts: Vec<Action> = Vec::new();
        let mut i: usize = 0;
        proof {
            assert(msgs_view(all.take(0)) =~= Seq::<MsgView>::empty());
            assert(actions_view(acts@) =~= Seq::<ActionView>::empty());
        }
        while rest.len() > 0
            invariant
                self.wf(),
                self.same_setting(old(self)),
                self.next_group_id == old(self).next_group_id,
                self.connections == old(self).connections,
                hard == self.hard(),
                i <= all.len(),
                all.len() <= usize::MAX,
                rest@ == all.subrange(i as int, all.len() as int),
                forall|j: int| 0 <= j < all.len() ==> !(#[trigger] all[j]@ is Handshake),
                self.model() == dispatch_all(m, hard, peer, side, msgs_view(all.take(i as int)), we_contacted).0,
                actions_view(acts@) == dispatch_all(m, hard, peer, side, msgs_view(all.take(i as int)), we_contacted).1,
            decreases rest.len(),
        {
            let msg = rest.remove(0);
            assert(msg == all[i as int]);
            let more = self.dispatch_wire_msg(peer, side, msg, we_contacted);
            append_actions(&mut acts, more);
            proof {
                let s = msgs_view(all.take(i + 1));
                assert(s.drop_last() =~= msgs_view(all.take(i as int)));
                assert(s.last() == all[i as int]@);
            }
            i = i + 1;
        }
        assert(all.take(i as int) =~= all);
        acts
    }


    /// Starts connecting to the node, with a message to send once connected, as a member of a
    /// bootstrap group. Refused when a connection to it exists or is being made.
    pub fn connect_to(
        &mut self,
        node_addr: SocketAddr,
        send_after_connect: Option<(PeerMsg, Token)>,
        group: Option<u64>,
    ) -> (r: Result<Vec<Action>, PeerError>)
        requires
            old(self).wf(),
            group matches Some(g) ==> old(self).model().groups.contains_key(g),
            !connect_panics(old(self).model(), old(self).our_type, node_addr),
        ensures
            final(self).wf(),
            final(self).same_setting(old(self)),
            final(self).next_group_id == old(self).next_group_id,
            final(self).model() == connect_to(
                old(self).model(),
                old(self).our_type,
                node_addr,
                send_view(send_after_connect),
                group,
            ).0,
            match r {
                Ok(v) => connect_to(
                    old(self).model(),
                    old(self).our_type,
                    node_addr,
                    send_view(send_after_connect),
                    group,
                ).2 is Ok && actions_view(v@) == connect_to(
                    old(self).model(),
                    old(self).our_type,
                    node_addr,
                    send_view(send_after_connect),
                    group,
                ).1,
                Err(e) => connect_to(
                    old(self).model(),
                    old(self).our_type,
                    node_addr,
                    send_view(send_after_connect),
                    group,
                ).2 == Err::<(), PeerError>(e),
            },
    {
        let ghost m = old(self).model();
        match self.connections.get(&node_addr) {
            Some(c) => {
                if !c.to_peer.is_no_connection() {
                    return Err(PeerError::DuplicateConnectionToPeer { peer_addr: node_addr });
                }
            },
            None => {},
        }
        let mut acts: Vec<Action> = Vec::new();
        proof {
            assert(actions_view(acts@) =~= Seq::<ActionView>::empty());
        }
        let mut conn = match self.take_conn(&node_addr) {
            Some(c) => c,
            None => {
                push_action(&mut acts, Action::ScheduleKill { addr: node_addr });
                Connection::new(node_addr, group)
            },
        };
        if self.our_type == OurType::Client {
            conn.from_peer = FromPeer::NotNeeded;
        }
        if conn.bootstrap_group.is_none() {
            conn.bootstrap_group = group;
        }
        let mut pending_sends: Vec<(PeerMsg, Token)> = Vec::new();
        match send_after_connect {
            Some(p) => pending_sends.push(p),
            None => {},
        }
        proof {
            assert(sends_view(pending_sends@) =~= match send_view(send_after_connect) {
                Some(p) => seq![p],
                None => Seq::<(MsgView, Token)>::empty(),
            });
        }
        conn.to_peer = ToPeer::Initiated { pending_sends };
        self.put_conn(conn);
        push_action(&mut acts, Action::Connect { addr: node_addr });
        proof {
            let s = connect_to(m, old(self).our_type, node_addr, send_view(send_after_connect), group);
            assert(self.model() =~= s.0);
        }
        Ok(acts)
    }

    /// The outcome of a failed connection attempt: drops the peer's state unless the attempt
    /// was refused as a duplicate.
    pub fn handle_connect_err(&mut self, peer_addr: SocketAddr, err: &PeerError) -> (r: Vec<Action>)
        requires
            old(self).wf(),
        ensures
            final(self).wf(),
            final(self).same_setting(old(self)),
            final(self).next_group_id == old(self).next_group_id,
            final(self).model() == connect_err(old(self).model(), peer_addr, *err).0,
            actions_view(r@) == connect_err(old(self).model(), peer_addr, *err).1,
    {
        if err.is_duplicate() {
            assert(actions_view(Seq::<Action>::empty()) =~= Seq::<ActionView>::empty());
            return Vec::new();
        }
        self.drop_connection(&peer_addr, None)
    }

    /// When the timeout of a connection runs out: drops it if it has not completed.
    pub fn kill_if_incomplete(&mut self, peer_addr: SocketAddr) -> (r: Vec<Action>)
        requires
            old(self).wf(),
        ensures
            final(self).wf(),
            final(self).same_setting(old(self)),
            final(self).next_group_id == old(self).next_group_id,
            final(self).model() == kill(old(self).model(), peer_addr).0,
            actions_view(r@) == kill(old(self).model(), peer_addr).1,
    {
        let incomplete = match self.connections.get(&peer_addr) {
            Some(c) => c.should_kill(),
            None => false,
        };
        if incomplete {
            self.drop_connection(&peer_addr, None)
        } else {
            assert(actions_view(Seq::<Action>::empty()) =~= Seq::<ActionView>::empty());
            Vec::new()
        }
    }

    /// Writes to the peer on the connection that can carry the message. Fails if we hold no
    /// state for the peer, or no connection with it is up.
    pub fn write_to_peer(&self, peer: Peer, msg: PeerMsg, token: Token) -> (r: Result<Vec<Action>, PeerError>)
        requires
            self.wf(),
        ensures
            match r {
                Ok(v) => write_to(self.model(), peer, msg@, token) == Ok::<Seq<ActionView>, PeerError>(actions_view(v@)),
                Err(e) => write_to(self.model(), peer, msg@, token) == Err::<Seq<ActionView>, PeerError>(e),
            },
    {
        let addr = peer.peer_addr();
        let ghost mv = msg@;
        match self.connections.get(&addr) {
            None => Err(PeerError::UnknownPeer),
            Some(c) => {
                let mut acts: Vec<Action> = Vec::new();
                if c.to_peer.is_not_needed() {
                    if c.from_peer.is_established() {
                        push_action(&mut acts, Action::Write { side: Side::FromPeer, peer, msg, token });
                    } else {
                        return Err(PeerError::NotConnected { peer_addr: addr });
                    }
                } else if c.to_peer.is_established() {
                    push_action(&mut acts, Action::Write { side: Side::ToPeer, peer, msg, token });
                } else {
                    return Err(PeerError::InvalidState { peer_addr: addr });
                }
                proof {
                    assert(actions_view(acts@) =~= Seq::<ActionView>::empty().push(actions_view(acts@).last()));
                }
                Ok(acts)
            },
        }
    }

    /// Sends to the peer. A client is written to if it can be; for a client that cannot be
    /// written to, sending fails with the reason and nothing changes. A node is connected to
    /// first if need be, and the message waits for the connection.
    pub fn try_write_to_peer(&mut self, peer: Peer, msg: PeerMsg, token: Token) -> (r: Result<Vec<Action>, PeerError>)
        requires
            old(self).wf(),
            peer is Node ==> !connect_panics(old(self).model(), old(self).our_type, peer.addr_of()),
        ensures
            final(self).wf(),
            final(self).same_setting(old(self)),
            final(self).next_group_id == old(self).next_group_id,
            final(self).model() == try_write(old(self).model(), old(self).our_type, peer, msg@, token).0,
            match r {
                Ok(v) => try_write(old(self).model(), old(self).our_type, peer, msg@, token).1
                    == Ok::<Seq<ActionView>, PeerError>(actions_view(v@)),
                Err(e) => try_write(old(self).model(), old(self).our_type, peer, msg@, token).1
                    == Err::<Seq<ActionView>, PeerError>(e),
            },
    {
        let ghost m = old(self).model();
        let ghost mv = msg@;
        match peer {
            Peer::Client(a) => {
                self.write_to_peer(peer, msg, token)
            },
            Peer::Node(a) => {
                let mut acts: Vec<Action> = Vec::new();
                proof {
                    assert(actions_view(acts@) =~= Seq::<ActionView>::empty());
                }
                if !self.connections.contains_key(&a) {
                    self.put_conn(Connection::new(a, None));
                    push_action(&mut acts, Action::ScheduleKill { addr: a });
                }
                let ghost m1 = self.model();
                assert(m1 =~= (if m.conns.contains_key(a) {
                    m
                } else {
                    Model { conns: m.conns.insert(a, ConnView::fresh(a, None)), ..m }
                }));
                let stage: u8 = match self.connections.get(&a) {
                    Some(c) => if c.to_peer.is_no_connection() {
                        0
                    } else if c.to_peer.is_not_needed() {
                        1
                    } else if c.to_peer.is_initiated() {
                        2
                    } else {
                        3
                    },
                    None => 1,
                };
                assert(m1.conns.contains_key(a));
                if stage == 0 {
                    let r = self.connect_to(a, Some((msg, token)), None);
                    match r {
                        Ok(v) => append_actions(&mut acts, v),
                        Err(_) => {},
                    }
                } else if stage == 2 {
                    let mut conn = match self.take_conn(&a) {
                        Some(c) => c,
                        None => return Ok(acts),
                    };
                    let mut tp = ToPeer::NoConnection;
                    std::mem::swap(&mut tp, &mut conn.to_peer);
                    match tp {
                        ToPeer::Initiated { pending_sends } => {
                            let mut ps = pending_sends;
                            let ghost before = ps@;
                            ps.push((msg, token));
                            proof {
                                assert(sends_view(ps@) =~= sends_view(before).push((mv, token)));
                            }
                            conn.to_peer = ToPeer::Initiated { pending_sends: ps };
                        },
                        _ => {},
                    }
                    self.put_conn(conn);
                    assert(self.model() =~= try_write(m, old(self).our_type, peer, mv, token).0);
                } else if stage == 3 {
                    push_action(&mut acts, Action::Write { side: Side::ToPeer, peer: Peer::Node(a), msg, token });
                }
                Ok(acts)
            },
        }
    }


    /// The peers in the order their states were added.
    pub open spec fn key_order(&self) -> Seq<SocketAddr> {
        self.connections.entries_view().map_values(|e: (SocketAddr, Connection)| e.0)
    }

    /// That order lists each peer once.
    proof fn lemma_key_order(&self)
        requires
            self.connections.wf(),
        ensures
            is_key_order(self.key_order(), self.conns_view()),
    {
        self.connections.lemma_view();
        let s = self.connections.entries_view();
        let k = self.key_order();
        assert forall|i: int, j: int| 0 <= i < k.len() && 0 <= j < k.len() && i != j implies k[i]
            != k[j] by {
            assert(k[i] == s[i].0 && k[j] == s[j].0);
        }
        assert forall|a: SocketAddr| #[trigger] k.contains(a) <==> self.conns_view().contains_key(a) by {
            lemma_to_map_dom(s, a);
            if k.contains(a) {
                let i = choose|i: int| 0 <= i < k.len() && k[i] == a;
                assert(s[i].0 == a);
            }
            if self.conns_view().contains_key(a) {
                let i = choose|i: int| 0 <= i < s.len() && s[i].0 == a;
                assert(k[i] == a);
            }
        }
    }

    /// Cancels and drops, in the order of `keys`, every member of the group.
    fn remove_members(&mut self, g: u64, keys: &Vec<SocketAddr>) -> (r: Vec<Action>)
        requires
            old(self).wf(),
        ensures
            final(self).wf(),
            final(self).same_setting(old(self)),
            final(self).next_group_id == old(self).next_group_id,
            final(self).model() == remove_members(old(self).model(), g, keys@).0,
            actions_view(r@) == remove_members(old(self).model(), g, keys@).1,
    {
        let ghost m = old(self).model();
        let mut acts: Vec<Action> = Vec::new();
        let mut i: usize = 0;
        proof {
            assert(keys@.take(0) =~= Seq::<SocketAddr>::empty());
            assert(actions_view(acts@) =~= Seq::<ActionView>::empty());
        }
        while i < keys.len()
            invariant
                self.wf(),
                self.same_setting(old(self)),
                self.next_group_id == old(self).next_group_id,
                i <= keys@.len(),
                self.model() == remove_members(m, g, keys@.take(i as int)).0,
                actions_view(acts@) == remove_members(m, g, keys@.take(i as int)).1,
            decreases keys@.len() - i,
        {
            let k = keys[i];
            proof {
                assert(keys@.take(i + 1).drop_last() =~= keys@.take(i as int));
                assert(keys@.take(i + 1).last() == k);
            }
            let member = match self.connections.get(&k) {
                Some(c) => match c.bootstrap_group {
                    Some(h) => h == g,
                    None => false,
                },
                None => false,
            };
            if member {
                push_action(&mut acts, Action::Terminate { addr: k });
                let more = self.drop_connection(&k, Some(g));
                append_actions(&mut acts, more);
            }
            i = i + 1;
        }
        assert(keys@.take(i as int) =~= keys@);
        acts
    }

    /// Ends the group from one of its members: marks it successful if that is why, cancels and
    /// drops the other members, then lets go of it. Returns the order the members were taken in.
    fn end_group_in_order(&mut self, g: u64, is_due_to_success: bool) -> (r: (Vec<Action>, Ghost<Seq<SocketAddr>>))
        requires
            old(self).wf(),
        ensures
            final(self).wf(),
            final(self).same_setting(old(self)),
            final(self).next_group_id == old(self).next_group_id,
            is_key_order(r.1@, old(self).model().conns),
            final(self).model() == terminate(old(self).model(), g, r.1@, is_due_to_success).0,
            actions_view(r.0@) == terminate(old(self).model(), g, r.1@, is_due_to_success).1,
    {
        let ghost m = old(self).model();
        if is_due_to_success && self.groups.contains_key(&g) {
            let _ = self.groups.insert(g, true);
        }
        assert(self.model() =~= (if is_due_to_success && m.groups.contains_key(g) {
            Model { groups: m.groups.insert(g, true), ..m }
        } else {
            m
        }));
        let keys = self.connections.keys();
        proof {
            self.lemma_key_order();
            assert(keys@ == self.key_order());
        }
        let mut acts = self.remove_members(g, &keys);
        let more = self.release_group(g);
        append_actions(&mut acts, more);
        (acts, Ghost(keys@))
    }

    /// Ends the group from one of its members: marks it successful if that is why, cancels and
    /// drops every other member, whose attempts are no longer needed, then lets go of it. The
    /// members are taken in no particular order.
    pub fn terminate_group(&mut self, group: u64, is_due_to_success: bool) -> (r: Vec<Action>)
        requires
            old(self).wf(),
        ensures
            final(self).wf(),
            final(self).same_setting(old(self)),
            final(self).next_group_id == old(self).next_group_id,
            exists|keys: Seq<SocketAddr>|
                #[trigger] is_key_order(keys, old(self).model().conns) && final(self).model()
                    == terminate(old(self).model(), group, keys, is_due_to_success).0 && actions_view(
                    r@,
                ) == terminate(old(self).model(), group, keys, is_due_to_success).1,
    {
        let (acts, keys) = self.end_group_in_order(group, is_due_to_success);
        assert(is_key_order(keys@, old(self).model().conns));
        acts
    }

    /// Whether the group has succeeded.
    pub fn is_bootstrap_successful_yet(&self, group: u64) -> (r: bool)
        requires
            self.wf(),
        ensures
            r == (self.model().groups.contains_key(group) && self.model().groups[group]),
    {
        match self.groups.get(&group) {
            Some(s) => *s,
            None => false,
        }
    }


    /// The outcome of an attempt to connect to a node. A failure drops the peer's state. A
    /// success is ignored if we hold no state for the peer any longer; otherwise the peer is
    /// cached if we contacted it, and then: with no connection from the peer yet, we introduce
    /// ourselves as a node; if we are a client, as a client, and the connection is reported and
    /// read from; if the peer is connected to us already, the connection is reported and the
    /// messages the peer sent meanwhile are handled. The messages that waited for the
    /// connection are written, and a bootstrap group that the attempt belonged to ends as
    /// successful.
    #[verifier::rlimit(40)]
    pub fn handle_new_connection_res(&mut self, peer_addr: SocketAddr, res: Result<(), ConnectionError>) -> (r: Vec<Action>)
        requires
            old(self).wf(),
            res is Ok && old(self).model().conns.contains_key(peer_addr) ==> old(self).model().conns[peer_addr].to_peer is Initiated,
        ensures
            final(self).wf(),
            final(self).same_setting(old(self)),
            final(self).next_group_id == old(self).next_group_id,
            match res {
                Err(e) => final(self).model() == connect_err(old(self).model(), peer_addr, PeerError::Connection(e)).0
                    && actions_view(r@) == connect_err(old(self).model(), peer_addr, PeerError::Connection(e)).1,
                Ok(_) => exists|keys: Seq<SocketAddr>|
                    #[trigger] is_key_order(keys, old(self).model().conns) && final(self).model()
                        == connected(old(self).model(), old(self).hard(), peer_addr, keys).0
                        && actions_view(r@) == connected(old(self).model(), old(self).hard(), peer_addr, keys).1,
            },
    {
        match res {
            Err(e) => {
                let err = PeerError::Connection(e);
                return self.handle_connect_err(peer_addr, &err);
            },
            Ok(_) => {},
        }
        let ghost m = old(self).model();
        let ghost hard = old(self).hard();
        proof {
            self.lemma_key_order();
        }
        let ghost w = self.key_order();
        let mut conn = match self.take_conn(&peer_addr) {
            None => {
                assert(self.model() =~= m);
                assert(actions_view(Seq::<Action>::empty()) =~= Seq::<ActionView>::empty());
                assert(is_key_order(w, m.conns));
                return Vec::new();
            },
            Some(c) => c,
        };
        let ghost c0 = conn@;
        let mut acts: Vec<Action> = Vec::new();
        proof {
            assert(actions_view(acts@) =~= Seq::<ActionView>::empty());
        }
        let mut tp = ToPeer::NoConnection;
        std::mem::swap(&mut tp, &mut conn.to_peer);
        let pending_sends = match tp {
            ToPeer::Initiated { pending_sends } => pending_sends,
            _ => Vec::new(),
        };
        let ghost sends = sends_view(pending_sends@);
        assert(sends == (match c0.to_peer {
            ToView::Initiated(s) => s,
            _ => Seq::<(MsgView, Token)>::empty(),
        }));
        if conn.we_contacted_peer {
            let more = self.cache_add(peer_addr);
            append_actions(&mut acts, more);
        }
        let ghost r1 = if c0.we_contacted_peer {
            cache_add(m, hard, peer_addr)
        } else {
            (m, Seq::<ActionView>::empty())
        };
        assert(self.model() =~= Model { conns: m.conns.remove(peer_addr), ..r1.0 });
        let group = conn.bootstrap_group;
        let event = match group {
            Some(_) => Event::BootstrappedTo { node: peer_addr },
            None => Event::ConnectedTo { peer: Peer::Node(peer_addr) },
        };
        assert(event@ == connected_event(c0, peer_addr));
        let mut fp = FromPeer::NoConnection;
        std::mem::swap(&mut fp, &mut conn.from_peer);
        assert(fp@ == c0.from_peer);
        assert(m.conns.contains_key(peer_addr));
        conn.to_peer = ToPeer::Established;
        match fp {
            FromPeer::NoConnection => {
                push_action(
                    &mut acts,
                    Action::Write {
                        side: Side::ToPeer,
                        peer: Peer::Node(peer_addr),
                        msg: PeerMsg::Handshake(Handshake::Node),
                        token: 0,
                    },
                );
                write_sends(&mut acts, peer_addr, pending_sends);
                self.put_conn(conn);
                proof {
                    let c1 = ConnView { to_peer: ToView::Established, ..c0 };
                    assert(self.model() =~= Model { conns: r1.0.conns.insert(peer_addr, c1), ..r1.0 });
                    assert(is_key_order(w, m.conns));
                }
                acts
            },
            FromPeer::NotNeeded => {
                push_action(
                    &mut acts,
                    Action::Write {
                        side: Side::ToPeer,
                        peer: Peer::Node(peer_addr),
                        msg: PeerMsg::Handshake(Handshake::Client),
                        token: 0,
                    },
                );
                push_action(&mut acts, Action::Fire(event));
                write_sends(&mut acts, peer_addr, pending_sends);
                conn.from_peer = FromPeer::NotNeeded;
                conn.bootstrap_group = None;
                self.put_conn(conn);
                let ghost c1 = ConnView { to_peer: ToView::Established, bootstrap_group: None, ..c0 };
                let ghost m2 = Model { conns: r1.0.conns.insert(peer_addr, c1), ..r1.0 };
                assert(self.model() =~= m2);
                let ghost mut keys = w;
                match group {
                    Some(g) => {
                        let (more, k) = self.end_group_in_order(g, true);
                        append_actions(&mut acts, more);
                        proof {
                            keys = k@;
                        }
                    },
                    None => {
                        assert(actions_view(acts@) + Seq::<ActionView>::empty() =~= actions_view(acts@));
                    },
                }
                push_action(&mut acts, Action::StartReading { addr: peer_addr });
                proof {
                    assert(m2.conns.dom() =~= m.conns.dom());
                    assert(is_key_order(keys, m.conns));
                }
                acts
            },
            FromPeer::Established { pending_reads } => {
                push_action(&mut acts, Action::Fire(event));
                proof {
                    let rd = msgs_view(pending_reads@);
                    lemma_reads_no_handshake(m, peer_addr);
                    assert(c0.from_peer == FromView::Established(rd));
                    assert forall|i: int| 0 <= i < pending_reads@.len() implies !(
                    #[trigger] pending_reads@[i]@ is Handshake) by {
                        assert(rd[i] == pending_reads@[i]@);
                    }
                }
                let ghost reads = msgs_view(pending_reads@);
                let ghost before = self.model();
                proof {
                    lemma_dispatch_all_frame(
                        before,
                        r1.0,
                        hard,
                        Peer::Node(peer_addr),
                        Side::ToPeer,
                        reads,
                        c0.we_contacted_peer,
                    );
                }
                let more = self.dispatch_all(
                    Peer::Node(peer_addr),
                    Side::ToPeer,
                    pending_reads,
                    conn.we_contacted_peer,
                );
                append_actions(&mut acts, more);
                let ghost r2 = dispatch_all(
                    r1.0,
                    hard,
                    Peer::Node(peer_addr),
                    Side::ToPeer,
                    reads,
                    c0.we_contacted_peer,
                );
                write_sends(&mut acts, peer_addr, pending_sends);
                conn.from_peer = FromPeer::Established { pending_reads: Vec::new() };
                conn.bootstrap_group = None;
                proof {
                    assert(msgs_view(Seq::<PeerMsg>::empty()) =~= Seq::<MsgView>::empty());
                }
                self.put_conn(conn);
                let ghost c1 = ConnView {
                    to_peer: ToView::Established,
                    from_peer: FromView::Established(Seq::empty()),
                    bootstrap_group: None,
                    ..c0
                };
                let ghost m2 = Model { conns: r2.0.conns.insert(peer_addr, c1), ..r2.0 };
                assert(self.model() =~= m2);
                let ghost mut keys = w;
                match group {
                    Some(g) => {
                        let (more, k) = self.end_group_in_order(g, true);
                        append_actions(&mut acts, more);
                        proof {
                            keys = k@;
                        }
                    },
                    None => {
                        assert(actions_view(acts@) + Seq::<ActionView>::empty() =~= actions_view(acts@));
                    },
                }
                proof {
                    assert(m2.conns.dom() =~= m.conns.dom());
                    assert(is_key_order(keys, m.conns));
                }
                acts
            },
        }
    }


    /// A handshake from a peer. A client's makes the peer a client, reported as connected, if we
    /// have no connection to it; a node's gets a connection back if we have none. Ignored for a
    /// peer we hold no state for.
    fn handle_rx_handshake(&mut self, peer_addr: SocketAddr, handshake: Handshake) -> (r: Vec<Action>)
        requires
            old(self).wf(),
            handshake == Handshake::Node ==> !connect_panics(old(self).model(), old(self).our_type, peer_addr),
        ensures
            final(self).wf(),
            final(self).same_setting(old(self)),
            final(self).next_group_id == old(self).next_group_id,
            final(self).model() == wire_msg(
                old(self).model(),
                old(self).hard(),
                old(self).our_type,
                peer_addr,
                MsgView::Handshake(handshake),
            ).0,
            actions_view(r@) == wire_msg(
                old(self).model(),
                old(self).hard(),
                old(self).our_type,
                peer_addr,
                MsgView::Handshake(handshake),
            ).1,
    {
        let ghost m = old(self).model();
        let no_connection = match self.connections.get(&peer_addr) {
            Some(c) => c.to_peer.is_no_connection(),
            None => false,
        };
        let mut acts: Vec<Action> = Vec::new();
        proof {
            assert(actions_view(acts@) =~= Seq::<ActionView>::empty());
        }
        if !no_connection {
            return acts;
        }
        match handshake {
            Handshake::Client => {
                let mut conn = match self.take_conn(&peer_addr) {
                    Some(c) => c,
                    None => return acts,
                };
                conn.to_peer = ToPeer::NotNeeded;
                self.put_conn(conn);
                push_action(
                    &mut acts,
                    Action::Fire(Event::ConnectedTo { peer: Peer::Client(peer_addr) }),
                );
                proof {
                    let c = m.conns[peer_addr];
                    assert(self.model() =~= Model {
                        conns: m.conns.insert(peer_addr, ConnView { to_peer: ToView::NotNeeded, ..c }),
                        ..m
                    });
                }
                acts
            },
            Handshake::Node => match self.connect_to(peer_addr, None, None) {
                Ok(v) => v,
                Err(_) => acts,
            },
        }
    }

    /// A message from a peer. Handshakes introduce the peer; other messages are handled on the
    /// connection that can carry the answer, or wait until our connection to the peer is made.
    /// Ignored for a peer we hold no state for, or with neither side connected.
    pub fn handle_wire_msg(&mut self, peer_addr: SocketAddr, msg: PeerMsg) -> (r: Vec<Action>)
        requires
            old(self).wf(),
            !(msg@ is Handshake) && old(self).model().conns.contains_key(peer_addr) ==> !(old(
                self,
            ).model().conns[peer_addr].from_peer is NoConnection),
            msg@ == MsgView::Handshake(Handshake::Node) ==> !connect_panics(
                old(self).model(),
                old(self).our_type,
                peer_addr,
            ),
        ensures
            final(self).wf(),
            final(self).same_setting(old(self)),
            final(self).next_group_id == old(self).next_group_id,
            final(self).model() == wire_msg(
                old(self).model(),
                old(self).hard(),
                old(self).our_type,
                peer_addr,
                msg@,
            ).0,
            actions_view(r@) == wire_msg(
                old(self).model(),
                old(self).hard(),
                old(self).our_type,
                peer_addr,
                msg@,
            ).1,
    {
        let ghost m = old(self).model();
        let ghost mv = msg@;
        let mut acts: Vec<Action> = Vec::new();
        proof {
            assert(actions_view(acts@) =~= Seq::<ActionView>::empty());
        }
        if let PeerMsg::Handshake(h) = msg {
            return self.handle_rx_handshake(peer_addr, h);
        }
        // 0: unknown, 1: the peer is a client-facing node side, 2: waits, 3: to a client,
        // 4: to a node
        let (route, we_contacted): (u8, bool) = match self.connections.get(&peer_addr) {
            None => (0, false),
            Some(c) => {
                let wc = c.we_contacted_peer;
                if c.from_peer.is_not_needed() {
                    if c.to_peer.is_established() {
                        (4, wc)
                    } else {
                        (0, wc)
                    }
                } else if c.from_peer.is_established() {
                    if c.to_peer.is_not_needed() {
                        (3, wc)
                    } else if c.to_peer.is_established() {
                        (4, wc)
                    } else {
                        (2, wc)
                    }
                } else {
                    (0, wc)
                }
            },
        };
        if route == 4 {
            self.dispatch_wire_msg(Peer::Node(peer_addr), Side::ToPeer, msg, we_contacted)
        } else if route == 3 {
            self.dispatch_wire_msg(Peer::Client(peer_addr), Side::FromPeer, msg, we_contacted)
        } else if route == 2 {
            let mut conn = match self.take_conn(&peer_addr) {
                Some(c) => c,
                None => return acts,
            };
            let ghost c0 = conn@;
            let mut fp = FromPeer::NoConnection;
            std::mem::swap(&mut fp, &mut conn.from_peer);
            match fp {
                FromPeer::Established { pending_reads } => {
                    let mut reads = pending_reads;
                    let ghost before = reads@;
                    reads.push(msg);
                    proof {
                        assert(msgs_view(reads@) =~= msgs_view(before).push(mv));
                    }
                    conn.from_peer = FromPeer::Established { pending_reads: reads };
                },
                _ => {},
            }
            self.put_conn(conn);
            proof {
                lemma_reads_no_handshake(m, peer_addr);
                let reads = m.conns[peer_addr].from_peer->0;
                let c1 = ConnView { from_peer: FromView::Established(reads.push(mv)), ..c0 };
                assert(self.model() =~= Model { conns: m.conns.insert(peer_addr, c1), ..m });
                assert forall|a: SocketAddr| #[trigger] self.model().conns.contains_key(a) implies {
                    &&& self.model().conns[a].peer_addr == a
                    &&& (self.model().conns[a].bootstrap_group matches Some(g) ==> self.model().groups.contains_key(g))
                    &&& (self.model().conns[a].from_peer matches FromView::Established(rs) ==> forall|i: int|
                        0 <= i < rs.len() ==> !(#[trigger] rs[i] is Handshake))
                } by {
                    if a == peer_addr {
                        assert forall|i: int| 0 <= i < reads.push(mv).len() implies !(
                        #[trigger] reads.push(mv)[i] is Handshake) by {
                            if i < reads.len() {
                                assert(reads.push(mv)[i] == reads[i]);
                            }
                        }
                    } else {
                        assert(m.conns.contains_key(a));
                    }
                }
            }
            acts
        } else {
            proof {
                assert(self.model() =~= m);
            }
            acts
        }
    }

    /// A peer connected to us. A second connection from the same peer is refused. If we are
    /// connected to the peer already the connection is complete: it is reported, as a bootstrap
    /// if the peer belonged to a group, which then ends as successful; if that group had
    /// succeeded already, the peer is reported as a failed communication instead. Otherwise the
    /// new connection is read from.
    pub fn handle_new_incoming_conn(&mut self, peer_addr: SocketAddr) -> (r: Vec<Action>)
        requires
            old(self).wf(),
        ensures
            final(self).wf(),
            final(self).same_setting(old(self)),
            final(self).next_group_id == old(self).next_group_id,
            exists|keys: Seq<SocketAddr>|
                #[trigger] is_key_order(keys, old(self).model().conns) && final(self).model()
                    == incoming(old(self).model(), peer_addr, keys).0 && actions_view(r@) == incoming(
                    old(self).model(),
                    peer_addr,
                    keys,
                ).1,
    {
        let ghost m = old(self).model();
        proof {
            self.lemma_key_order();
        }
        let ghost w0 = self.key_order();
        let mut acts: Vec<Action> = Vec::new();
        proof {
            assert(actions_view(acts@) =~= Seq::<ActionView>::empty());
        }
        if !self.connections.contains_key(&peer_addr) {
            self.put_conn(Connection::new(peer_addr, None));
            push_action(&mut acts, Action::ScheduleKill { addr: peer_addr });
        }
        let ghost m1 = self.model();
        let ghost pre = actions_view(acts@);
        assert(m1 =~= (if m.conns.contains_key(peer_addr) {
            m
        } else {
            Model { conns: m.conns.insert(peer_addr, ConnView::fresh(peer_addr, None)), ..m }
        }));
        let mut conn = match self.take_conn(&peer_addr) {
            Some(c) => c,
            None => return acts,
        };
        let ghost c0 = conn@;
        if !conn.from_peer.is_no_connection() {
            self.put_conn(conn);
            proof {
                assert(self.model() =~= m1);
                assert(m.conns.contains_key(peer_addr));
                assert(is_key_order(w0, m.conns));
            }
            return acts;
        }
        conn.from_peer = FromPeer::Established { pending_reads: Vec::new() };
        proof {
            assert(msgs_view(Seq::<PeerMsg>::empty()) =~= Seq::<MsgView>::empty());
        }
        let ghost c1 = ConnView { from_peer: FromView::Established(Seq::empty()), ..c0 };
        let ghost mut keys = w0;
        if conn.to_peer.is_established() {
            match conn.bootstrap_group {
                Some(g) => {
                    conn.bootstrap_group = None;
                    self.put_conn(conn);
                    let ghost m2 = Model {
                        conns: m1.conns.insert(peer_addr, ConnView { bootstrap_group: None, ..c1 }),
                        ..m1
                    };
                    assert(self.model() =~= m2);
                    let successful = match self.groups.get(&g) {
                        Some(s) => *s,
                        None => false,
                    };
                    assert(m1.conns.contains_key(peer_addr));
                    assert(m1.groups.contains_key(g));
                    if successful {
                        let more = self.release_group(g);
                        append_actions(&mut acts, more);
                        push_action(
                            &mut acts,
                            Action::CommunicationError {
                                peer_addr,
                                err: PeerError::ConnectionCancelled,
                                unsent: None,
                            },
                        );
                    } else {
                        push_action(
                            &mut acts,
                            Action::Fire(Event::BootstrappedTo { node: peer_addr }),
                        );
                        let (more, k) = self.end_group_in_order(g, true);
                        append_actions(&mut acts, more);
                        push_action(&mut acts, Action::StartReading { addr: peer_addr });
                        proof {
                            keys = k@;
                        }
                    }
                    proof {
                        assert(m.conns.contains_key(peer_addr));
                        assert(m2.conns.dom() =~= m.conns.dom());
                    }
                },
                None => {
                    self.put_conn(conn);
                    push_action(
                        &mut acts,
                        Action::Fire(Event::ConnectedTo { peer: Peer::Node(peer_addr) }),
                    );
                    push_action(&mut acts, Action::StartReading { addr: peer_addr });
                    proof {
                        assert(self.model() =~= Model { conns: m1.conns.insert(peer_addr, c1), ..m1 });
                        assert(pre.push(ActionView::Fire(EventView::ConnectedTo { peer: Peer::Node(peer_addr) })).push(
                            ActionView::StartReading { addr: peer_addr },
                        ) =~= pre + seq![
                            ActionView::Fire(EventView::ConnectedTo { peer: Peer::Node(peer_addr) }),
                            ActionView::StartReading { addr: peer_addr },
                        ]);
                    }
                },
            }
        } else {
            self.put_conn(conn);
            push_action(&mut acts, Action::StartReading { addr: peer_addr });
            proof {
                assert(self.model() =~= Model { conns: m1.conns.insert(peer_addr, c1), ..m1 });
                assert(pre.push(ActionView::StartReading { addr: peer_addr }) =~= pre + seq![
                    ActionView::StartReading { addr: peer_addr },
                ]);
            }
        }
        proof {
            assert(is_key_order(keys, m.conns));
            assert(self.model() == incoming(m, peer_addr, keys).0);
            assert(actions_view(acts@) == incoming(m, peer_addr, keys).1);
        }
        acts
    }

}

/// The nodes to bootstrap off: the cached peers, most recent first, then the hard-coded
/// contacts.
fn bootstrap_node_list(cache: &BootstrapCache) -> (r: Vec<SocketAddr>)
    ensures
        r@ == bootstrap_nodes(cache.peers_view(), cache.hard_coded_view()),
{
    let peers = cache.peers();
    let mut r: Vec<SocketAddr> = Vec::new();
    let mut i: usize = peers.len();
    while i > 0
        invariant
            i <= peers@.len(),
            r@ == peers@.subrange(i as int, peers@.len() as int).reverse(),
        decreases i,
    {
        i = i - 1;
        r.push(peers[i]);
        proof {
            assert(peers@.subrange(i as int, peers@.len() as int).reverse() =~= peers@.subrange(
                i + 1,
                peers@.len() as int,
            ).reverse().push(peers@[i as int]));
        }
    }
    let mut hard = cache.hard_coded_contacts().clone();
    r.append(&mut hard);
    proof {
        assert(peers@.subrange(0, peers@.len() as int) =~= peers@);
    }
    r
}

/// Bootstraps: a new group connects to the cached peers, most recent first, then to the
/// hard-coded contacts. The first of them to connect is reported; the others are then
/// cancelled. With none to connect to, bootstrapping fails at once.
pub fn start(ctx: &mut Context) -> (r: Vec<Action>)
    requires
        old(ctx).wf(),
        old(ctx).next_group_id < u64::MAX,
        forall|n: SocketAddr| #[trigger]
            bootstrap_nodes(old(ctx).model().peers, old(ctx).hard()).contains(n) ==> !connect_panics(
                old(ctx).model(),
                old(ctx).our_type,
                n,
            ),
    ensures
        final(ctx).wf(),
        final(ctx).same_setting(old(ctx)),
        final(ctx).next_group_id == old(ctx).next_group_id + 1,
        final(ctx).model() == bootstrap(old(ctx).model(), old(ctx).our_type, old(ctx).hard(), old(ctx).next_group_id).0,
        actions_view(r@) == bootstrap(old(ctx).model(), old(ctx).our_type, old(ctx).hard(), old(ctx).next_group_id).1,
{
    let ghost m = old(ctx).model();
    let ghost our_type = old(ctx).our_type;
    let g = ctx.next_group_id;
    assert(!m.groups.contains_key(g));
    ctx.next_group_id = g + 1;
    let _ = ctx.groups.insert(g, false);
    let ghost m0 = ctx.model();
    assert(m0 =~= Model { groups: m.groups.insert(g, false), ..m });
    let nodes = bootstrap_node_list(&ctx.bootstrap_cache);
    let mut acts: Vec<Action> = Vec::new();
    let mut i: usize = 0;
    proof {
        assert(nodes@.take(0) =~= Seq::<SocketAddr>::empty());
        assert(actions_view(acts@) =~= Seq::<ActionView>::empty());
        assert(nodes@ == bootstrap_nodes(m.peers, old(ctx).hard()));
        assert forall|n: SocketAddr| #[trigger] nodes@.contains(n) implies !connect_panics(ctx.model(), our_type, n) by {
            assert(bootstrap_nodes(m.peers, old(ctx).hard()).contains(n));
            assert(!connect_panics(m, our_type, n));
        }
    }
    while i < nodes.len()
        invariant
            ctx.wf(),
            ctx.same_setting(old(ctx)),
            ctx.next_group_id == g + 1,
            our_type == ctx.our_type,
            i <= nodes@.len(),
            nodes@ == bootstrap_nodes(m.peers, old(ctx).hard()),
            ctx.model() == connect_all(m0, our_type, nodes@.take(i as int), g).0,
            actions_view(acts@) == connect_all(m0, our_type, nodes@.take(i as int), g).1,
            ctx.model().groups.contains_key(g),
            forall|n: SocketAddr| #[trigger]
                nodes@.contains(n) ==> !connect_panics(ctx.model(), our_type, n),
        decreases nodes@.len() - i,
    {
        let n = nodes[i];
        let ghost before = ctx.model();
        proof {
            assert(nodes@.contains(n));
            assert(nodes@.take(i + 1).drop_last() =~= nodes@.take(i as int));
            assert(nodes@.take(i + 1).last() == n);
        }
        match ctx.connect_to(n, None, Some(g)) {
            Ok(v) => append_actions(&mut acts, v),
            Err(_) => {
                assert(actions_view(acts@) + Seq::<ActionView>::empty() =~= actions_view(acts@));
            },
        }
        proof {
            assert forall|a: SocketAddr| #[trigger] nodes@.contains(a) implies !connect_panics(ctx.model(), our_type, a) by {
                assert(!connect_panics(before, our_type, a));
                if a != n {
                    assert(ctx.model().conns.contains_key(a) == before.conns.contains_key(a));
                    if before.conns.contains_key(a) {
                        assert(ctx.model().conns[a] == before.conns[a]);
                    }
                }
            }
        }
        i = i + 1;
    }
    assert(nodes@.take(i as int) =~= nodes@);
    let more = ctx.release_group(g);
    append_actions(&mut acts, more);
    acts
}

/// Whether the context has been set in its slot.
pub fn is_ctx_initialised(slot: &Option<Context>) -> (r: bool)
    ensures
        r == slot.is_some(),
{
    slot.is_some()
}

/// Sets the context in its empty slot.
pub fn initialise_ctx(slot: &mut Option<Context>, context: Context)
    requires
        old(slot).is_none(),
    ensures
        *final(slot) == Some(context),
{
    *slot = Some(context);
}

/// A user message, with its recipient and token, as values.
pub open spec fn user_msg_view(u: Option<(Peer, Vec<u8>, Token)>) -> Option<(Peer, Seq<u8>, Token)> {
    match u {
        Some(u) => Some((u.0, u.1@, u.2)),
        None => None,
    }
}

/// What becomes of a write to a peer: a user message written is reported as sent; a failed
/// write is reported as a failed communication, with the user message that was not sent.
pub open spec fn write_outcome_spec(
    peer_addr: SocketAddr,
    user_msg: Option<(Peer, Seq<u8>, Token)>,
    res: Result<(), PeerError>,
) -> Option<ActionView> {
    match res {
        Ok(_) => match user_msg {
            Some(u) => Some(
                ActionView::Fire(EventView::SentUserMessage { peer: u.0, msg: u.1, token: u.2 }),
            ),
            None => None,
        },
        Err(e) => Some(ActionView::CommunicationError { peer_addr, err: e, unsent: user_msg }),
    }
}

/// An optional action, as values.
pub open spec fn option_action_view(a: Option<Action>) -> Option<ActionView> {
    match a {
        Some(a) => Some(a@),
        None => None,
    }
}

/// The outcome of writing a message to a peer.
pub fn write_outcome(
    peer_addr: SocketAddr,
    user_msg: Option<(Peer, Vec<u8>, Token)>,
    res: Result<(), PeerError>,
) -> (r: Option<Action>)
    ensures
        option_action_view(r) == write_outcome_spec(peer_addr, user_msg_view(user_msg), res),
{
    match res {
        Ok(_) => match user_msg {
            Some((peer, msg, token)) => Some(Action::Fire(Event::SentUserMessage { peer, msg, token })),
            None => None,
        },
        Err(e) => Some(Action::CommunicationError { peer_addr, err: e, unsent: user_msg }),
    }
}

/// The report of a send to a peer that failed with `err`.
pub fn send_failure(peer: Peer, err: PeerError, msg: &PeerMsg, token: Token) -> (r: Action)
    ensures
        r@ == send_failure_spec(peer, err, msg@, token),
{
    let unsent = match msg {
        PeerMsg::UserMsg(b) => Some((peer, b.clone(), token)),
        _ => None,
    };
    Action::CommunicationError { peer_addr: peer.peer_addr(), err, unsent }
}

/// Why a peer's bi-directional stream is refused: the attempt itself, or the failure met while
/// waiting for one.
pub open spec fn refusal_error(peer_addr: SocketAddr, res: Result<(), ConnectionError>) -> PeerError {
    match res {
        Ok(_) => PeerError::BiDirectionalStreamAttempted { peer_addr },
        Err(e) => PeerError::Connection(e),
    }
}

/// A peer may not open a bi-directional stream to us: it is reported as a failed communication
/// with the peer.
pub fn bi_stream_refusal(peer_addr: SocketAddr, res: Result<(), ConnectionError>) -> (r: Action)
    ensures
        r@ == (ActionView::CommunicationError {
            peer_addr,
            err: refusal_error(peer_addr, res),
            unsent: None,
        }),
{
    let err = match res {
        Ok(_) => PeerError::BiDirectionalStreamAttempted { peer_addr },
        Err(e) => PeerError::Connection(e),
    };
    Action::CommunicationError { peer_addr, err, unsent: None }
}

} // verus!
