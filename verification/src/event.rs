//! The events that the connection context reports to its user, and its errors.

use crate::addr::{addr_text, SocketAddr};
use crate::errors::ConnectionError;
use crate::peer::{peer_text, Peer};
use crate::utils::{bin_data_format, bin_data_text, dec_text, push_dec, Token};
use vstd::prelude::*;

verus! {

/// Why a peer could not be reached or was dropped.
#[derive(Debug, Clone, PartialEq, Eq)]
pub enum PeerError {
    /// The connection attempt was cancelled, or the connection dropped by us.
    ConnectionCancelled,
    /// A connection to the peer exists or is being made already.
    DuplicateConnectionToPeer {
        /// The peer.
        peer_addr: SocketAddr,
    },
    /// The peer opened a bi-directional stream, which is not allowed.
    BiDirectionalStreamAttempted {
        /// The peer.
        peer_addr: SocketAddr,
    },
    /// We hold no connection state for the peer.
    UnknownPeer,
    /// We need no connection to the peer and the peer has none to us just now.
    NotConnected {
        /// The peer.
        peer_addr: SocketAddr,
    },
    /// Our connection to the peer is not in a state in which it can carry a message.
    InvalidState {
        /// The peer.
        peer_addr: SocketAddr,
    },
    /// The QUIC connection failed.
    Connection(ConnectionError),
}

impl PeerError {
    /// Whether the error reports a duplicate connection attempt.
    pub fn is_duplicate(&self) -> (r: bool)
        ensures
            r == (*self is DuplicateConnectionToPeer),
    {
        match self {
            PeerError::DuplicateConnectionToPeer { .. } => true,
            _ => false,
        }
    }
}

/// What the user is told of the peers.
#[derive(Debug)]
pub enum Event {
    /// Network bootstrap failed.
    BootstrapFailure,
    /// Bootstrap connection to this node was successful.
    BootstrappedTo {
        /// Node information.
        node: SocketAddr,
    },
    /// Connection to this peer failed.
    ConnectionFailure {
        /// Peer.
        peer: Peer,
        /// Error explaining connection failure.
        err: PeerError,
    },
    /// The given message was successfully sent to this peer.
    SentUserMessage {
        /// Peer.
        peer: Peer,
        /// Sent message.
        msg: Vec<u8>,
        /// Token, originally given by the user, for context.
        token: Token,
    },
    /// The given message was not sent to this peer.
    UnsentUserMessage {
        /// Peer.
        peer: Peer,
        /// Unsent message.
        msg: Vec<u8>,
        /// Token, originally given by the user, for context.
        token: Token,
    },
    /// Successfully connected to this peer.
    ConnectedTo {
        /// Peer information.
        peer: Peer,
    },
    /// A new message was received from this peer.
    NewMessage {
        /// Sending peer.
        peer: Peer,
        /// The new message.
        msg: Vec<u8>,
    },
    /// No more messages will be fired after this.
    Finish,
}

/// An event, with its bytes as sequences.
pub enum EventView {
    /// Network bootstrap failed.
    BootstrapFailure,
    /// Bootstrapped to the node.
    BootstrappedTo {
        /// The node.
        node: SocketAddr,
    },
    /// Connection to the peer failed.
    ConnectionFailure {
        /// The peer.
        peer: Peer,
        /// Why.
        err: PeerError,
    },
    /// Message sent.
    SentUserMessage {
        /// The peer.
        peer: Peer,
        /// The message.
        msg: Seq<u8>,
        /// Its token.
        token: Token,
    },
    /// Message not sent.
    UnsentUserMessage {
        /// The peer.
        peer: Peer,
        /// The message.
        msg: Seq<u8>,
        /// Its token.
        token: Token,
    },
    /// Connected to the peer.
    ConnectedTo {
        /// The peer.
        peer: Peer,
    },
    /// Message received from the peer.
    NewMessage {
        /// The peer.
        peer: Peer,
        /// The message.
        msg: Seq<u8>,
    },
    /// No more events.
    Finish,
}

impl View for Event {
    type V = EventView;

    open spec fn view(&self) -> EventView {
        match self {
            Event::BootstrapFailure => EventView::BootstrapFailure,
            Event::BootstrappedTo { node } => EventView::BootstrappedTo { node: *node },
            Event::ConnectionFailure { peer, err } => EventView::ConnectionFailure {
                peer: *peer,
                err: *err,
            },
            Event::SentUserMessage { peer, msg, token } => EventView::SentUserMessage {
                peer: *peer,
                msg: msg@,
                token: *token,
            },
            Event::UnsentUserMessage { peer, msg, token } => EventView::UnsentUserMessage {
                peer: *peer,
                msg: msg@,
                token: *token,
            },
            Event::ConnectedTo { peer } => EventView::ConnectedTo { peer: *peer },
            Event::NewMessage { peer, msg } => EventView::NewMessage { peer: *peer, msg: msg@ },
            Event::Finish => EventView::Finish,
        }
    }
}

impl EventView {
    /// Whether the event concerns a node: every event but those about a client peer.
    pub open spec fn is_node_event(&self) -> bool {
        match self {
            EventView::ConnectionFailure { peer, .. } => peer is Node,
            EventView::SentUserMessage { peer, .. } => peer is Node,
            EventView::UnsentUserMessage { peer, .. } => peer is Node,
            EventView::ConnectedTo { peer } => peer is Node,
            EventView::NewMessage { peer, .. } => peer is Node,
            _ => true,
        }
    }
}

impl Event {
    /// Whether the event concerns a node rather than a client.
    pub fn is_node_event(&self) -> (r: bool)
        ensures
            r == self@.is_node_event(),
    {
        match self {
            Event::BootstrapFailure => true,
            Event::BootstrappedTo { .. } => true,
            Event::ConnectionFailure { peer, .. } => peer.is_node(),
            Event::SentUserMessage { peer, .. } => peer.is_node(),
            Event::UnsentUserMessage { peer, .. } => peer.is_node(),
            Event::ConnectedTo { peer } => peer.is_node(),
            Event::NewMessage { peer, .. } => peer.is_node(),
            Event::Finish => true,
        }
    }
}

/// The description of an error about a peer.
pub open spec fn peer_error_text(e: PeerError) -> Seq<char> {
    match e {
        PeerError::ConnectionCancelled => "Connection cancelled"@,
        PeerError::DuplicateConnectionToPeer { peer_addr } => "Duplicate connection attempted to peer "@
            + addr_text(peer_addr),
        PeerError::BiDirectionalStreamAttempted { peer_addr } => "Bi-directional stream attempted by peer "@
            + addr_text(peer_addr),
        PeerError::UnknownPeer => "Unknown Peer"@,
        PeerError::NotConnected { peer_addr } =>
            "We cannot communicate with someone we are not needing to connect to and they are not connected to us just now. Peer: "@
            + addr_text(peer_addr),
        PeerError::InvalidState { peer_addr } => "Peer "@ + addr_text(peer_addr)
            + " is in invalid state to be communicated to"@,
        PeerError::Connection(_) => "The QUIC connection failed"@,
    }
}

impl PeerError {
    /// The description of the error.
    pub fn to_display_string(&self) -> (r: String)
        ensures
            r@ == peer_error_text(*self),
    {
        proof {
            reveal_strlit("Connection cancelled");
            reveal_strlit("Duplicate connection attempted to peer ");
            reveal_strlit("Bi-directional stream attempted by peer ");
            reveal_strlit("Unknown Peer");
            reveal_strlit(
                "We cannot communicate with someone we are not needing to connect to and they are not connected to us just now. Peer: ",
            );
            reveal_strlit("Peer ");
            reveal_strlit(" is in invalid state to be communicated to");
            reveal_strlit("The QUIC connection failed");
        }
        match self {
            PeerError::ConnectionCancelled => String::from_str("Connection cancelled"),
            PeerError::DuplicateConnectionToPeer { peer_addr } => {
                let mut out = String::from_str("Duplicate connection attempted to peer ");
                let t = peer_addr.to_display_string();
                out.append(t.as_str());
                out
            },
            PeerError::BiDirectionalStreamAttempted { peer_addr } => {
                let mut out = String::from_str("Bi-directional stream attempted by peer ");
                let t = peer_addr.to_display_string();
                out.append(t.as_str());
                out
            },
            PeerError::UnknownPeer => String::from_str("Unknown Peer"),
            PeerError::NotConnected { peer_addr } => {
                let mut out = String::from_str(
                    "We cannot communicate with someone we are not needing to connect to and they are not connected to us just now. Peer: ",
                );
                let t = peer_addr.to_display_string();
                out.append(t.as_str());
                out
            },
            PeerError::InvalidState { peer_addr } => {
                let mut out = String::from_str("Peer ");
                let t = peer_addr.to_display_string();
                out.append(t.as_str());
                out.append(" is in invalid state to be communicated to");
                out
            },
            PeerError::Connection(_) => String::from_str("The QUIC connection failed"),
        }
    }
}

/// An event as text.
pub open spec fn event_text(e: EventView) -> Seq<char> {
    match e {
        EventView::BootstrapFailure => "Event::BootstrapFailure"@,
        EventView::BootstrappedTo { node } => "Event::BootstrappedTo { node: "@ + addr_text(node)
            + " }"@,
        EventView::ConnectionFailure { peer, err } => "Event::ConnectionFailure { peer: "@
            + addr_text(peer.addr_of()) + ", err: "@ + peer_error_text(err) + " }"@,
        EventView::SentUserMessage { peer, msg, token } => "Event::SentUserMessage { peer: "@
            + addr_text(peer.addr_of()) + ", msg: "@ + bin_data_text(msg) + ", token: "@ + dec_text(
            token as nat,
        ) + " }"@,
        EventView::UnsentUserMessage { peer, msg, token } => "Event::UnsentUserMessage { peer: "@
            + addr_text(peer.addr_of()) + ", msg: "@ + bin_data_text(msg) + ", token: "@ + dec_text(
            token as nat,
        ) + " }"@,
        EventView::ConnectedTo { peer } => "Event::ConnectedTo { peer: "@ + peer_text(peer) + " }"@,
        EventView::NewMessage { peer, msg } => "Event::NewMessage { peer: "@ + addr_text(
            peer.addr_of(),
        ) + ", msg: "@ + bin_data_text(msg) + " }"@,
        EventView::Finish => "Event::Finish"@,
    }
}

impl Event {
    /// The event as text.
    pub fn to_display_string(&self) -> (r: String)
        ensures
            r@ == event_text(self@),
    {
        proof {
            reveal_strlit("Event::BootstrapFailure");
            reveal_strlit("Event::BootstrappedTo { node: ");
            reveal_strlit(" }");
            reveal_strlit("Event::ConnectionFailure { peer: ");
            reveal_strlit(", err: ");
            reveal_strlit("Event::SentUserMessage { peer: ");
            reveal_strlit("Event::UnsentUserMessage { peer: ");
            reveal_strlit(", msg: ");
            reveal_strlit(", token: ");
            reveal_strlit("Event::ConnectedTo { peer: ");
            reveal_strlit("Event::NewMessage { peer: ");
            reveal_strlit("Event::Finish");
        }
        match self {
            Event::BootstrapFailure => String::from_str("Event::BootstrapFailure"),
            Event::BootstrappedTo { node } => {
                let mut out = String::from_str("Event::BootstrappedTo { node: ");
                let t = node.to_display_string();
                out.append(t.as_str());
                out.append(" }");
                out
            },
            Event::ConnectionFailure { peer, err } => {
                let mut out = String::from_str("Event::ConnectionFailure { peer: ");
                let t = peer.peer_addr().to_display_string();
                out.append(t.as_str());
                out.append(", err: ");
                let e = err.to_display_string();
                out.append(e.as_str());
                out.append(" }");
                out
            },
            Event::SentUserMessage { peer, msg, token } => {
                let mut out = String::from_str("Event::SentUserMessage { peer: ");
                let t = peer.peer_addr().to_display_string();
                out.append(t.as_str());
                out.append(", msg: ");
                let m = bin_data_format(msg.as_slice());
                out.append(m.as_str());
                out.append(", token: ");
                push_dec(&mut out, *token);
                out.append(" }");
                out
            },
            Event::UnsentUserMessage { peer, msg, token } => {
                let mut out = String::from_str("Event::UnsentUserMessage { peer: ");
                let t = peer.peer_addr().to_display_string();
                out.append(t.as_str());
                out.append(", msg: ");
                let m = bin_data_format(msg.as_slice());
                out.append(m.as_str());
                out.append(", token: ");
                push_dec(&mut out, *token);
                out.append(" }");
                out
            },
            Event::ConnectedTo { peer } => {
                let mut out = String::from_str("Event::ConnectedTo { peer: ");
                let t = peer.to_display_string();
                out.append(t.as_str());
                out.append(" }");
                out
            },
            Event::NewMessage { peer, msg } => {
                let mut out = String::from_str("Event::NewMessage { peer: ");
                let t = peer.peer_addr().to_display_string();
                out.append(t.as_str());
                out.append(", msg: ");
                let m = bin_data_format(msg.as_slice());
                out.append(m.as_str());
                out.append(" }");
                out
            },
            Event::Finish => String::from_str("Event::Finish"),
        }
    }
}

} // verus!
