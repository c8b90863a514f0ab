//! The state of a connection to one peer: the connection from us to the peer and the one from
//! the peer to us, each in its own stage, and the messages waiting on them.
//!
//! The QUIC connections themselves are held by the caller, by peer address and side; this state
//! says what each side is doing.

use crate::addr::SocketAddr;
use crate::event::{Event, EventView, PeerError};
use crate::peer::Peer;
use crate::utils::Token;
use vstd::prelude::*;

verus! {

/// How a peer introduces itself on a new connection.
#[derive(Debug, Clone, Copy, PartialEq, Eq, Structural)]
pub enum Handshake {
    /// The peer is a node and expects a connection back.
    Node,
    /// The peer is a client.
    Client,
}

/// A message between peers.
#[derive(Debug)]
pub enum PeerMsg {
    /// A user message.
    UserMsg(Vec<u8>),
    /// A request for the address we see the peer at.
    EndpointEchoReq,
    /// The address the peer sees us at.
    EndpointEchoResp(SocketAddr),
    /// The peer introduces itself.
    Handshake(Handshake),
}

/// A message between peers, with its bytes as a sequence.
pub enum MsgView {
    /// A user message.
    UserMsg(Seq<u8>),
    /// A request for the address we see the peer at.
    EndpointEchoReq,
    /// The address the peer sees us at.
    EndpointEchoResp(SocketAddr),
    /// The peer introduces itself.
    Handshake(Handshake),
}

impl View for PeerMsg {
    type V = MsgView;

    open spec fn view(&self) -> MsgView {
        match self {
            PeerMsg::UserMsg(b) => MsgView::UserMsg(b@),
            PeerMsg::EndpointEchoReq => MsgView::EndpointEchoReq,
            PeerMsg::EndpointEchoResp(a) => MsgView::EndpointEchoResp(*a),
            PeerMsg::Handshake(h) => MsgView::Handshake(*h),
        }
    }
}

impl PeerMsg {
    /// A copy of the message.
    pub fn duplicate(&self) -> (r: PeerMsg)
        ensures
            r@ == self@,
    {
        match self {
            PeerMsg::UserMsg(b) => PeerMsg::UserMsg(b.clone()),
            PeerMsg::EndpointEchoReq => PeerMsg::EndpointEchoReq,
            PeerMsg::EndpointEchoResp(a) => PeerMsg::EndpointEchoResp(*a),
            PeerMsg::Handshake(h) => PeerMsg::Handshake(*h),
        }
    }
}

/// The messages of a list of messages with tokens.
pub open spec fn sends_view(s: Seq<(PeerMsg, Token)>) -> Seq<(MsgView, Token)> {
    s.map_values(|p: (PeerMsg, Token)| (p.0@, p.1))
}

/// The messages of a list.
pub open spec fn msgs_view(s: Seq<PeerMsg>) -> Seq<MsgView> {
    s.map_values(|m: PeerMsg| m@)
}

/// The stage of the connection from us to the peer, as values.
pub enum ToView {
    /// No connection and none being made.
    NoConnection,
    /// Not needed.
    NotNeeded,
    /// Being made, with the messages waiting for it.
    Initiated(Seq<(MsgView, Token)>),
    /// Connected.
    Established,
}

/// The stage of the connection from the peer to us, as values.
pub enum FromView {
    /// Not connected.
    NoConnection,
    /// Not needed.
    NotNeeded,
    /// Connected, with the messages waiting to be handled.
    Established(Seq<MsgView>),
}

/// The state of our connections with one peer, as values.
pub struct ConnView {
    /// Connection to the peer from us.
    pub to_peer: ToView,
    /// Connection from the peer to us.
    pub from_peer: FromView,
    /// The bootstrap group of the connection attempt.
    pub bootstrap_group: Option<u64>,
    /// Whether the user contacted the peer.
    pub we_contacted_peer: bool,
    /// The peer's address.
    pub peer_addr: SocketAddr,
}

/// The stage of the connection from us to the peer.
#[derive(Debug)]
pub enum ToPeer {
    /// No connection and none being made.
    NoConnection,
    /// The peer is a client: we do not connect to it.
    NotNeeded,
    /// A connection is being made; the messages wait for it.
    Initiated {
        /// Messages to send once connected, in order.
        pending_sends: Vec<(PeerMsg, Token)>,
    },
    /// Connected.
    Established,
}

/// The stage of the connection from the peer to us.
#[derive(Debug)]
pub enum FromPeer {
    /// The peer has not connected to us.
    NoConnection,
    /// We are a client: the peer does not connect to us.
    NotNeeded,
    /// The peer is connected to us; the messages received before our own connection to it was
    /// made wait here.
    Established {
        /// Messages received, in order, not yet handled.
        pending_reads: Vec<PeerMsg>,
    },
}

impl View for ToPeer {
    type V = ToView;

    open spec fn view(&self) -> ToView {
        match self {
            ToPeer::NoConnection => ToView::NoConnection,
            ToPeer::NotNeeded => ToView::NotNeeded,
            ToPeer::Initiated { pending_sends } => ToView::Initiated(sends_view(pending_sends@)),
            ToPeer::Established => ToView::Established,
        }
    }
}

impl View for FromPeer {
    type V = FromView;

    open spec fn view(&self) -> FromView {
        match self {
            FromPeer::NoConnection => FromView::NoConnection,
            FromPeer::NotNeeded => FromView::NotNeeded,
            FromPeer::Established { pending_reads } => FromView::Established(
                msgs_view(pending_reads@),
            ),
        }
    }
}

impl View for Connection {
    type V = ConnView;

    open spec fn view(&self) -> ConnView {
        ConnView {
            to_peer: self.to_peer@,
            from_peer: self.from_peer@,
            bootstrap_group: self.bootstrap_group,
            we_contacted_peer: self.we_contacted_peer,
            peer_addr: self.peer_addr,
        }
    }
}

impl ToPeer {
    /// Whether the peer needs no connection from us.
    pub fn is_not_needed(&self) -> (r: bool)
        ensures
            r == (*self is NotNeeded),
    {
        match self {
            ToPeer::NotNeeded => true,
            _ => false,
        }
    }

    /// Whether there is no connection to the peer.
    pub fn is_no_connection(&self) -> (r: bool)
        ensures
            r == (*self is NoConnection),
    {
        match self {
            ToPeer::NoConnection => true,
            _ => false,
        }
    }

    /// Whether a connection to the peer is being made.
    pub fn is_initiated(&self) -> (r: bool)
        ensures
            r == (*self is Initiated),
    {
        match self {
            ToPeer::Initiated { .. } => true,
            _ => false,
        }
    }

    /// Whether we are connected to the peer.
    pub fn is_established(&self) -> (r: bool)
        ensures
            r == (*self is Established),
    {
        match self {
            ToPeer::Established => true,
            _ => false,
        }
    }
}

impl Default for ToPeer {
    fn default() -> (r: Self)
        ensures
            r is NoConnection,
    {
        ToPeer::NoConnection
    }
}

impl FromPeer {
    /// Whether we need no connection from the peer.
    pub fn is_not_needed(&self) -> (r: bool)
        ensures
            r == (*self is NotNeeded),
    {
        match self {
            FromPeer::NotNeeded => true,
            _ => false,
        }
    }

    /// Whether the peer has no connection to us.
    pub fn is_no_connection(&self) -> (r: bool)
        ensures
            r == (*self is NoConnection),
    {
        match self {
            FromPeer::NoConnection => true,
            _ => false,
        }
    }

    /// Whether the peer is connected to us.
    pub fn is_established(&self) -> (r: bool)
        ensures
            r == (*self is Established),
    {
        match self {
            FromPeer::Established { .. } => true,
            _ => false,
        }
    }
}

impl Default for FromPeer {
    fn default() -> (r: Self)
        ensures
            r is NoConnection,
    {
        FromPeer::NoConnection
    }
}

/// The state of our connections with one peer.
#[derive(Debug)]
pub struct Connection {
    /// Connection to the peer from us.
    pub to_peer: ToPeer,
    /// Connection from the peer to us.
    pub from_peer: FromPeer,
    /// The bootstrap group this connection attempt belongs to, if any.
    pub bootstrap_group: Option<u64>,
    /// Whether the user of the library contacted this peer. Until then the peer is not trusted
    /// enough to enter the bootstrap cache.
    pub we_contacted_peer: bool,
    /// The peer's address.
    pub peer_addr: SocketAddr,
}

impl ConnView {
    /// A connection state with no connection either way.
    pub open spec fn fresh(peer_addr: SocketAddr, bootstrap_group: Option<u64>) -> ConnView {
        ConnView {
            to_peer: ToView::NoConnection,
            from_peer: FromView::NoConnection,
            bootstrap_group,
            we_contacted_peer: false,
            peer_addr,
        }
    }

    /// Both sides are done: each is connected or not needed.
    pub open spec fn is_complete(&self) -> bool {
        &&& (self.to_peer is Established || self.to_peer is NotNeeded)
        &&& (self.from_peer is Established || self.from_peer is NotNeeded)
    }

    /// Dropping this state is reported to the user as a failed connection.
    pub open spec fn fails_on_drop(&self) -> bool {
        self.we_contacted_peer || self.is_complete()
    }

    /// The peer as reported when this state is dropped: a node if we connect to it.
    pub open spec fn failure_peer(&self) -> Peer {
        if self.to_peer is Initiated || self.to_peer is Established {
            Peer::Node(self.peer_addr)
        } else {
            Peer::Client(self.peer_addr)
        }
    }

    /// A connection that has not completed: one side still open, or neither side needed.
    pub open spec fn is_incomplete(&self) -> bool {
        ||| !(self.to_peer is Established) && !(self.to_peer is NotNeeded)
        ||| !(self.from_peer is Established) && !(self.from_peer is NotNeeded)
        ||| self.to_peer is NotNeeded && self.from_peer is NotNeeded
    }

    /// The event fired when this state is dropped, if any.
    pub open spec fn drop_event(&self) -> Option<EventView> {
        if self.fails_on_drop() {
            Some(
                EventView::ConnectionFailure {
                    peer: self.failure_peer(),
                    err: PeerError::ConnectionCancelled,
                },
            )
        } else {
            None
        }
    }
}

impl Connection {
    /// New connection state with defaults.
    pub fn new(peer_addr: SocketAddr, bootstrap_group: Option<u64>) -> (r: Self)
        ensures
            r@ == ConnView::fresh(peer_addr, bootstrap_group),
    {
        Connection {
            to_peer: ToPeer::NoConnection,
            from_peer: FromPeer::NoConnection,
            bootstrap_group,
            we_contacted_peer: false,
            peer_addr,
        }
    }

    /// The event fired when this state is dropped: a connection failure if we contacted the peer
    /// or the connection had completed.
    pub fn drop_event(&self) -> (r: Option<Event>)
        ensures
            r matches Some(e) ==> self@.drop_event() == Some(e@),
            r is None <==> self@.drop_event() is None,
    {
        let complete = (self.to_peer.is_established() || self.to_peer.is_not_needed()) && (
        self.from_peer.is_established() || self.from_peer.is_not_needed());
        if self.we_contacted_peer || complete {
            let peer = if self.to_peer.is_initiated() || self.to_peer.is_established() {
                Peer::Node(self.peer_addr)
            } else {
                Peer::Client(self.peer_addr)
            };
            Some(Event::ConnectionFailure { peer, err: PeerError::ConnectionCancelled })
        } else {
            None
        }
    }

    /// Whether the timer that runs out on every new connection state removes this one: it does
    /// unless both sides completed and not both are unneeded.
    pub fn should_kill(&self) -> (r: bool)
        ensures
            r == self@.is_incomplete(),
    {
        (!self.to_peer.is_established() && !self.to_peer.is_not_needed()) || (
        !self.from_peer.is_established() && !self.from_peer.is_not_needed()) || (
        self.to_peer.is_not_needed() && self.from_peer.is_not_needed())
    }
}

/// A connection that completed with one side connected is never removed by the timer.
pub proof fn law_complete_connection_survives_timer(c: ConnView)
    requires
        c.is_complete(),
        c.to_peer is Established || c.from_peer is Established,
    ensures
        !c.is_incomplete(),
        c.fails_on_drop(),
{
}

} // verus!
