//! An in-memory stand-in for the QUIC peer: the same events as the real one, over a simulated
//! network. Each node is a state machine: it takes a request of its user or a packet from the
//! network and answers with the packets to send, the peers to disconnect and the events to
//! fire, in that order of the list it returns.

use crate::addr::{IpAddr, SocketAddr};
use crate::peer::{OurType, Peer};
use crate::key_map::AddrMap;
use crate::bootstrap_cache::contains_addr;
pub use crate::utils::Token;
use vstd::prelude::*;

verus! {

/// The mock's error: carries no detail.
#[derive(Debug, Clone, Copy, PartialEq, Eq, Structural)]
pub struct QuicP2pError;

/// `QuicP2p` error.
#[derive(Debug, Clone, Copy, PartialEq, Eq, Structural)]
pub struct Error;

/// Configuration for `QuicP2p`.
#[derive(Debug, Clone)]
pub struct Config {
    /// Hard-coded contacts (no address occurs twice).
    pub hard_coded_contacts: Vec<SocketAddr>,
    /// Type of our `QuicP2p` instance: node or client.
    pub our_type: OurType,
    /// IP address to listen on.
    pub ip: Option<IpAddr>,
    /// Port to listen on.
    pub port: Option<u16>,
}

impl Default for Config {
    fn default() -> (r: Self)
        ensures
            r.hard_coded_contacts@ == Seq::<SocketAddr>::empty(),
            r.our_type == OurType::Node,
            r.ip is None,
            r.port is None,
    {
        Config { hard_coded_contacts: Vec::new(), our_type: OurType::Node, ip: None, port: None }
    }
}

/// The distinct elements of `s`, in the order of their first occurrence.
pub open spec fn dedup(s: Seq<SocketAddr>) -> Seq<SocketAddr>
    decreases s.len(),
{
    if s.len() == 0 {
        s
    } else if s.drop_last().contains(s.last()) {
        dedup(s.drop_last())
    } else {
        dedup(s.drop_last()).push(s.last())
    }
}

/// `dedup` keeps exactly the elements, once each.
pub proof fn lemma_dedup(s: Seq<SocketAddr>)
    ensures
        crate::bootstrap_cache::no_duplicates(dedup(s)),
        forall|x: SocketAddr| #[trigger] dedup(s).contains(x) <==> s.contains(x),
    decreases s.len(),
{
    if s.len() > 0 {
        let t = s.drop_last();
        lemma_dedup(t);
        assert forall|x: SocketAddr| #[trigger] dedup(s).contains(x) <==> s.contains(x) by {
            if t.contains(x) {
                let i = choose|i: int| 0 <= i < t.len() && t[i] == x;
                assert(s[i] == x);
            }
            if s.contains(x) {
                let i = choose|i: int| 0 <= i < s.len() && s[i] == x;
                if i < t.len() {
                    assert(t[i] == x);
                }
            }
            if !t.contains(s.last()) {
                let d = dedup(t).push(s.last());
                if d.contains(x) {
                    let i = choose|i: int| 0 <= i < d.len() && d[i] == x;
                    if i < dedup(t).len() {
                        assert(dedup(t)[i] == x);
                    }
                }
                if dedup(t).contains(x) {
                    let i = choose|i: int| 0 <= i < dedup(t).len() && dedup(t)[i] == x;
                    assert(d[i] == x);
                }
                if x == s.last() {
                    assert(d[d.len() - 1] == x);
                }
            }
        }
        if !t.contains(s.last()) {
            let d = dedup(t).push(s.last());
            assert forall|i: int, j: int| 0 <= i < d.len() && 0 <= j < d.len() && i != j implies d[i]
                != d[j] by {
                if i == d.len() - 1 && j < dedup(t).len() {
                    assert(dedup(t).contains(d[j]));
                }
                if j == d.len() - 1 && i < dedup(t).len() {
                    assert(dedup(t).contains(d[i]));
                }
            }
        }
    }
}

impl Config {
    /// Create `Config` for a node.
    pub fn node() -> (r: Self)
        ensures
            r.hard_coded_contacts@ == Seq::<SocketAddr>::empty(),
            r.our_type == OurType::Node,
            r.ip is None,
            r.port is None,
    {
        Config { hard_coded_contacts: Vec::new(), our_type: OurType::Node, ip: None, port: None }
    }

    /// Create `Config` for a client.
    pub fn client() -> (r: Self)
        ensures
            r.hard_coded_contacts@ == Seq::<SocketAddr>::empty(),
            r.our_type == OurType::Client,
            r.ip is None,
            r.port is None,
    {
        Config { hard_coded_contacts: Vec::new(), our_type: OurType::Client, ip: None, port: None }
    }

    /// Set the hard-coded contacts: the given addresses, each once.
    pub fn with_hard_coded_contacts(self, contacts: Vec<SocketAddr>) -> (r: Self)
        ensures
            r.hard_coded_contacts@ == dedup(contacts@),
            r.our_type == self.our_type,
            r.ip == self.ip,
            r.port == self.port,
    {
        let mut out: Vec<SocketAddr> = Vec::new();
        let mut i: usize = 0;
        while i < contacts.len()
            invariant
                i <= contacts@.len(),
                out@ == dedup(contacts@.subrange(0, i as int)),
            decreases contacts@.len() - i,
        {
            let c = contacts[i];
            proof {
                lemma_dedup(contacts@.subrange(0, i as int));
            }
            let seen = contains_addr(&out, &c);
            if !seen {
                out.push(c);
            }
            proof {
                let s = contacts@.subrange(0, i + 1);
                assert(s.drop_last() =~= contacts@.subrange(0, i as int));
                assert(s.last() == c);
            }
            i = i + 1;
        }
        assert(contacts@.subrange(0, i as int) =~= contacts@);
        Config { hard_coded_contacts: out, our_type: self.our_type, ip: self.ip, port: self.port }
    }

    /// Set the hard-coded contacts to a single contact.
    pub fn with_hard_coded_contact(self, contact: SocketAddr) -> (r: Self)
        ensures
            r.hard_coded_contacts@ == seq![contact],
            r.our_type == self.our_type,
            r.ip == self.ip,
            r.port == self.port,
    {
        let mut v: Vec<SocketAddr> = Vec::new();
        v.push(contact);
        let r = self.with_hard_coded_contacts(v);
        proof {
            let s = seq![contact];
            assert(s.drop_last() =~= Seq::<SocketAddr>::empty());
            assert(dedup(s.drop_last()) == Seq::<SocketAddr>::empty());
            assert(dedup(s) =~= seq![contact]);
        }
        r
    }

    /// Set the endpoint (IP and port) to use.
    pub fn with_endpoint(self, addr: SocketAddr) -> (r: Self)
        ensures
            r.hard_coded_contacts@ == self.hard_coded_contacts@,
            r.our_type == self.our_type,
            r.ip == Some(addr.ip),
            r.port == Some(addr.port),
    {
        Config {
            hard_coded_contacts: self.hard_coded_contacts,
            our_type: self.our_type,
            ip: Some(addr.ip()),
            port: Some(addr.port()),
        }
    }
}

/// Events from `QuicP2p` to the user.
#[derive(Debug)]
pub enum Event {
    /// Bootstrap failed.
    BootstrapFailure,
    /// Bootstrap succeeded.
    BootstrappedTo {
        /// The node we are bootstrapped to.
        node: SocketAddr,
    },
    /// Connection to the given peer failed or was lost.
    ConnectionFailure {
        /// The peer.
        peer: Peer,
        /// The error.
        err: QuicP2pError,
    },
    /// Message sent by us but not delivered.
    UnsentUserMessage {
        /// Intended recipient.
        peer: Peer,
        /// Message content.
        msg: Vec<u8>,
        /// Message token.
        token: Token,
    },
    /// Message sent by us and delivered.
    SentUserMessage {
        /// Intended recipient.
        peer: Peer,
        /// Message content.
        msg: Vec<u8>,
        /// Message token.
        token: Token,
    },
    /// Connection successfully established.
    ConnectedTo {
        /// The connected peer.
        peer: Peer,
    },
    /// Message received.
    NewMessage {
        /// Message sender.
        peer: Peer,
        /// Message content.
        msg: Vec<u8>,
    },
    /// Sent right before the `QuicP2p` instance drops.
    Finish,
}

impl Event {
    /// Whether an event goes to the node channel (rather than the client channel): our own
    /// bootstrap events, `Finish`, and events about node peers.
    pub open spec fn spec_is_node_event(&self) -> bool {
        match self {
            Event::BootstrapFailure => true,
            Event::BootstrappedTo { .. } => true,
            Event::ConnectionFailure { peer, .. } => peer is Node,
            Event::SentUserMessage { peer, .. } => peer is Node,
            Event::UnsentUserMessage { peer, .. } => peer is Node,
            Event::ConnectedTo { peer } => peer is Node,
            Event::NewMessage { peer, .. } => peer is Node,
            Event::Finish => true,
        }
    }

    /// Whether an event goes to the node channel (rather than the client channel).
    pub fn is_node_event(&self) -> (r: bool)
        ensures
            r == self.spec_is_node_event(),
    {
        match self {
            Event::BootstrapFailure => true,
            Event::BootstrappedTo { .. } => true,
            Event::ConnectionFailure { peer, .. } => peer.is_node(),
            Event::SentUserMessage { peer, .. } => peer.is_node(),
            Event::UnsentUserMessage { peer, .. } => peer.is_node(),
            Event::ConnectedTo { peer } => peer.is_node(),
            Event::NewMessage { peer, .. } => peer.is_node(),
            Event::Finish => true,
        }
    }
}

/// A user message in flight.
#[derive(Debug)]
pub struct Message {
    /// The type the sender believes the recipient to be.
    pub dst_type: OurType,
    /// The content.
    pub content: Vec<u8>,
    /// The sender's token.
    pub token: Token,
}

/// A packet between two nodes of the simulated network.
#[derive(Debug)]
pub enum Packet {
    /// Request to bootstrap off the recipient, by a peer of the given type.
    BootstrapRequest(OurType),
    /// The bootstrap request was accepted.
    BootstrapSuccess,
    /// The bootstrap request could not be delivered.
    BootstrapFailure,
    /// Request to connect to the recipient, by a peer of the given type.
    ConnectRequest(OurType),
    /// The connect request was accepted.
    ConnectSuccess,
    /// The connect request could not be delivered.
    ConnectFailure,
    /// A user message.
    Message(Message),
    /// The user message could not be delivered.
    MessageFailure(Message),
    /// The user message was delivered.
    MessageSent(Message),
    /// The sender dropped its connection to the recipient.
    Disconnect,
}

/// What a node asks of the network and of its user.
#[derive(Debug)]
pub enum Action {
    /// Send a packet from this node to `dst`.
    Send {
        /// The recipient.
        dst: SocketAddr,
        /// The packet.
        packet: Packet,
    },
    /// Drop the connection between this node and `dst`.
    Disconnect {
        /// The peer.
        dst: SocketAddr,
    },
    /// Fire an event to the user.
    Fire(Event),
}

/// How a connection was established.
#[derive(Debug, Clone, Copy, PartialEq, Eq, Structural)]
pub enum ConnectionType {
    /// Connection established via `connect_to`.
    Normal,
    /// Connection established via `bootstrap`.
    Bootstrap,
}

impl ConnectionType {
    /// Whether this is a bootstrap connection.
    pub fn is_bootstrap(self) -> (r: bool)
        ensures
            r == (self == ConnectionType::Bootstrap),
    {
        match self {
            ConnectionType::Normal => false,
            ConnectionType::Bootstrap => true,
        }
    }
}

/// Messages waiting for a connection: the recipient's type and (content, token) pairs.
pub type PendingMessages = (OurType, Vec<(Vec<u8>, Token)>);

/// Whether any connection in the map is a bootstrap connection.
pub open spec fn any_bootstrap(peers: Map<SocketAddr, (ConnectionType, OurType)>) -> bool {
    exists|k: SocketAddr| #[trigger] peers.dom().contains(k) && peers[k].0 == ConnectionType::Bootstrap
}

/// The packets that send the pending messages `msgs` to `addr`, in order.
pub open spec fn send_actions(addr: SocketAddr, t: OurType, msgs: Seq<(Vec<u8>, Token)>) -> Seq<Action> {
    msgs.map_values(
        |m: (Vec<u8>, Token)|
            Action::Send {
                dst: addr,
                packet: Packet::Message(Message { dst_type: t, content: m.0, token: m.1 }),
            },
    )
}

/// The events that report the pending messages `msgs` to `addr` as unsent, in order.
pub open spec fn unsent_actions(addr: SocketAddr, t: OurType, msgs: Seq<(Vec<u8>, Token)>) -> Seq<
    Action,
> {
    msgs.map_values(
        |m: (Vec<u8>, Token)|
            Action::Fire(
                Event::UnsentUserMessage { peer: Peer::spec_new(t, addr), msg: m.0, token: m.1 },
            ),
    )
}

/// The packets for the messages pending for `addr`, if any.
pub open spec fn pending_sends(pending: Map<SocketAddr, PendingMessages>, addr: SocketAddr) -> Seq<
    Action,
> {
    if pending.dom().contains(addr) {
        send_actions(addr, pending[addr].0, pending[addr].1@)
    } else {
        Seq::empty()
    }
}

/// The unsent-message events for the messages pending for `addr`, if any.
pub open spec fn pending_unsent(pending: Map<SocketAddr, PendingMessages>, addr: SocketAddr) -> Seq<
    Action,
> {
    if pending.dom().contains(addr) {
        unsent_actions(addr, pending[addr].0, pending[addr].1@)
    } else {
        Seq::empty()
    }
}

/// The bootstrap requests to each of `contacts`, in order.
pub open spec fn bootstrap_requests(contacts: Seq<SocketAddr>, t: OurType) -> Seq<Action> {
    contacts.map_values(
        |c: SocketAddr| Action::Send { dst: c, packet: Packet::BootstrapRequest(t) },
    )
}

/// The addresses of `a` followed by those of `b`.
fn concat_addrs(a: &Vec<SocketAddr>, b: &Vec<SocketAddr>) -> (r: Vec<SocketAddr>)
    ensures
        r@ == a@ + b@,
{
    let mut r = a.clone();
    let mut rest = b.clone();
    r.append(&mut rest);
    r
}

/// The keys of the entries are distinct.
pub open spec fn keys_distinct_entries(s: Seq<(SocketAddr, (ConnectionType, OurType))>) -> bool {
    crate::key_map::keys_distinct(s)
}

/// A node of the simulated network.
#[derive(Debug)]
pub struct Node {
    addr: SocketAddr,
    config: Config,
    peers: AddrMap<(ConnectionType, OurType)>,
    bootstrap_cache: Vec<SocketAddr>,
    pending_bootstraps: Vec<SocketAddr>,
    pending_messages: AddrMap<PendingMessages>,
}

impl Node {
    /// Our address.
    pub closed spec fn addr_view(&self) -> SocketAddr {
        self.addr
    }

    /// Our configuration.
    pub closed spec fn config_view(&self) -> Config {
        self.config
    }

    /// Connected peers: how the connection was made and the peer's type.
    pub closed spec fn peers_view(&self) -> Map<SocketAddr, (ConnectionType, OurType)> {
        self.peers.view_map()
    }

    /// Peers we connected to, in the order they were first cached.
    pub closed spec fn cache_view(&self) -> Seq<SocketAddr> {
        self.bootstrap_cache@
    }

    /// Contacts we sent a bootstrap request to and have not heard back from.
    pub closed spec fn pending_bootstraps_view(&self) -> Set<SocketAddr> {
        self.pending_bootstraps@.to_set()
    }

    /// Messages waiting for a connection, by recipient.
    pub closed spec fn pending_view(&self) -> Map<SocketAddr, PendingMessages> {
        self.pending_messages.view_map()
    }

    /// Well-formed: maps have distinct keys, sets hold each address once.
    pub closed spec fn wf(&self) -> bool {
        &&& self.peers.wf()
        &&& self.pending_messages.wf()
        &&& crate::bootstrap_cache::no_duplicates(self.bootstrap_cache@)
    }

    /// The node at `addr` (chosen by the network) with the given configuration.
    pub fn new(addr: SocketAddr, config: Config) -> (r: Node)
        ensures
            r.wf(),
            r.addr_view() == addr,
            r.config_view() == config,
            r.peers_view() == Map::<SocketAddr, (ConnectionType, OurType)>::empty(),
            r.cache_view() == Seq::<SocketAddr>::empty(),
            r.pending_bootstraps_view() == Set::<SocketAddr>::empty(),
            r.pending_view() == Map::<SocketAddr, PendingMessages>::empty(),
    {
        let r = Node {
            addr,
            config,
            peers: AddrMap::new(),
            bootstrap_cache: Vec::new(),
            pending_bootstraps: Vec::new(),
            pending_messages: AddrMap::new(),
        };
        assert(r.pending_bootstraps@.to_set() =~= Set::<SocketAddr>::empty());
        r
    }

    /// Our address.
    pub fn addr(&self) -> (r: &SocketAddr)
        ensures
            *r == self.addr_view(),
    {
        &self.addr
    }

    /// Our type.
    pub fn our_type(&self) -> (r: OurType)
        ensures
            r == self.config_view().our_type,
    {
        self.config.our_type
    }

    /// The configuration this node was created with.
    pub fn config(&self) -> (r: &Config)
        ensures
            *r == self.config_view(),
    {
        &self.config
    }

    /// Our connection info for others to connect to us: our address, if we are a node.
    pub fn our_connection_info(&self) -> (r: Result<SocketAddr, QuicP2pError>)
        ensures
            self.config_view().our_type == OurType::Node ==> r == Ok::<SocketAddr, QuicP2pError>(
                self.addr_view(),
            ),
            self.config_view().our_type == OurType::Client ==> r == Err::<SocketAddr, QuicP2pError>(
                QuicP2pError,
            ),
    {
        match self.config.our_type {
            OurType::Client => Err(QuicP2pError),
            OurType::Node => Ok(self.addr),
        }
    }

    /// The peers we connected to.
    pub fn bootstrap_cache(&self) -> (r: Vec<SocketAddr>)
        ensures
            r@ == self.cache_view(),
    {
        self.bootstrap_cache.clone()
    }

    /// Whether we are connected to `addr`.
    pub fn is_connected(&self, addr: &SocketAddr) -> (r: bool)
        requires
            self.wf(),
        ensures
            r == self.peers_view().dom().contains(*addr),
    {
        self.peers.contains_key(addr)
    }

    /// Whether we have a bootstrap connection.
    fn has_bootstrap_connection(&self) -> (r: bool)
        requires
            self.wf(),
        ensures
            r == any_bootstrap(self.peers_view()),
    {
        let n = self.peers.len();
        let mut i: usize = 0;
        while i < n
            invariant
                self.wf(),
                n == self.peers.entries_view().len(),
                i <= n,
                forall|j: int|
                    0 <= j < i ==> (#[trigger] self.peers.entries_view()[j]).1.0
                        != ConnectionType::Bootstrap,
            decreases n - i,
        {
            let (k, v) = self.peers.value_at(i);
            if v.0.is_bootstrap() {
                assert(self.peers_view().dom().contains(*k));
                return true;
            }
            i = i + 1;
        }
        proof {
            self.peers.lemma_view();
            assert forall|k: SocketAddr| #[trigger] self.peers_view().dom().contains(k) implies self.peers_view()[k].0
                != ConnectionType::Bootstrap by {
                crate::key_map::lemma_to_map_dom(self.peers.entries_view(), k);
                let j = choose|j: int|
                    0 <= j < self.peers.entries_view().len() && self.peers.entries_view()[j].0 == k;
                crate::key_map::lemma_to_map_index(self.peers.entries_view(), j);
                assert(self.peers.entries_view()[j].1.0 != ConnectionType::Bootstrap);
            }
        }
        false
    }

    /// The actions for a list of pending messages: sending each to `addr` or reporting each
    /// as unsent, in order.
    fn message_actions(addr: SocketAddr, t: OurType, msgs: Vec<(Vec<u8>, Token)>, send: bool) -> (r: Vec<Action>)
        ensures
            send ==> r@ == send_actions(addr, t, msgs@),
            !send ==> r@ == unsent_actions(addr, t, msgs@),
    {
        let ghost orig = msgs@;
        let n = msgs.len();
        let mut msgs = msgs;
        let mut out: Vec<Action> = Vec::new();
        let mut k: usize = 0;
        while msgs.len() > 0
            invariant
                k <= orig.len(),
                orig.len() == n,
                msgs@ == orig.subrange(k as int, orig.len() as int),
                send ==> out@ == send_actions(addr, t, orig.subrange(0, k as int)),
                !send ==> out@ == unsent_actions(addr, t, orig.subrange(0, k as int)),
            decreases msgs@.len(),
        {
            let (content, token) = msgs.remove(0);
            assert(orig[k as int] == (content, token));
            if send {
                out.push(
                    Action::Send {
                        dst: addr,
                        packet: Packet::Message(Message { dst_type: t, content, token }),
                    },
                );
                assert(out@ =~= send_actions(addr, t, orig.subrange(0, k + 1)));
            } else {
                out.push(
                    Action::Fire(
                        Event::UnsentUserMessage { peer: Peer::new(t, addr), msg: content, token },
                    ),
                );
                assert(out@ =~= unsent_actions(addr, t, orig.subrange(0, k + 1)));
            }
            k = k + 1;
            assert(msgs@ =~= orig.subrange(k as int, orig.len() as int));
        }
        assert(orig.subrange(0, k as int) =~= orig);
        out
    }

    /// Sends the messages pending for `addr`, now that we are connected to it.
    fn send_pending_messages(&mut self, addr: SocketAddr) -> (r: Vec<Action>)
        requires
            old(self).wf(),
        ensures
            final(self).wf(),
            r@ == pending_sends(old(self).pending_view(), addr),
            final(self).pending_view() == old(self).pending_view().remove(addr),
            final(self).peers_view() == old(self).peers_view(),
            final(self).cache_view() == old(self).cache_view(),
            final(self).pending_bootstraps_view() == old(self).pending_bootstraps_view(),
            final(self).addr_view() == old(self).addr_view(),
            final(self).config_view() == old(self).config_view(),
    {
        match self.pending_messages.remove(&addr) {
            Some((t, msgs)) => Self::message_actions(addr, t, msgs, true),
            None => Vec::new(),
        }
    }

    /// Reports the messages pending for `addr` as unsent.
    fn clear_pending_messages(&mut self, addr: SocketAddr) -> (r: Vec<Action>)
        requires
            old(self).wf(),
        ensures
            final(self).wf(),
            r@ == pending_unsent(old(self).pending_view(), addr),
            final(self).pending_view() == old(self).pending_view().remove(addr),
            final(self).peers_view() == old(self).peers_view(),
            final(self).cache_view() == old(self).cache_view(),
            final(self).pending_bootstraps_view() == old(self).pending_bootstraps_view(),
            final(self).addr_view() == old(self).addr_view(),
            final(self).config_view() == old(self).config_view(),
    {
        match self.pending_messages.remove(&addr) {
            Some((t, msgs)) => Self::message_actions(addr, t, msgs, false),
            None => Vec::new(),
        }
    }

    /// Bootstrap to the network: send a bootstrap request to every hard-coded contact, then
    /// to every cached peer. Does nothing once bootstrapped; fires `BootstrapFailure` when
    /// there is no one to bootstrap off.
    pub fn bootstrap(&mut self) -> (r: Vec<Action>)
        requires
            old(self).wf(),
        ensures
            final(self).wf(),
            final(self).peers_view() == old(self).peers_view(),
            final(self).cache_view() == old(self).cache_view(),
            final(self).pending_view() == old(self).pending_view(),
            final(self).addr_view() == old(self).addr_view(),
            final(self).config_view() == old(self).config_view(),
            any_bootstrap(old(self).peers_view()) ==> r@ == Seq::<Action>::empty()
                && final(self).pending_bootstraps_view() == old(self).pending_bootstraps_view(),
            !any_bootstrap(old(self).peers_view()) && old(self).config_view().hard_coded_contacts@.len() == 0
                && old(self).cache_view().len() == 0 ==> r@ == seq![Action::Fire(Event::BootstrapFailure)]
                && final(self).pending_bootstraps_view() == old(self).pending_bootstraps_view(),
            !any_bootstrap(old(self).peers_view()) && (old(self).config_view().hard_coded_contacts@.len() > 0
                || old(self).cache_view().len() > 0) ==> r@ == bootstrap_requests(
                old(self).config_view().hard_coded_contacts@ + old(self).cache_view(),
                old(self).config_view().our_type,
            ) && final(self).pending_bootstraps_view() == old(self).pending_bootstraps_view().union(
                (old(self).config_view().hard_coded_contacts@ + old(self).cache_view()).to_set(),
            ),
    {
        if self.has_bootstrap_connection() {
            return Vec::new();
        }
        if self.config.hard_coded_contacts.len() == 0 && self.bootstrap_cache.len() == 0 {
            let mut r = Vec::new();
            r.push(Action::Fire(Event::BootstrapFailure));
            return r;
        }
        let contacts = concat_addrs(&self.config.hard_coded_contacts, &self.bootstrap_cache);
        let ghost before = self.pending_bootstraps@;
        let t = self.config.our_type;
        let mut out: Vec<Action> = Vec::new();
        let mut i: usize = 0;
        while i < contacts.len()
            invariant
                self.peers == old(self).peers,
                self.bootstrap_cache == old(self).bootstrap_cache,
                self.pending_messages == old(self).pending_messages,
                self.addr == old(self).addr,
                self.config == old(self).config,
                t == self.config.our_type,
                i <= contacts@.len(),
                out@ == bootstrap_requests(contacts@.subrange(0, i as int), t),
                self.pending_bootstraps@.to_set() == before.to_set().union(
                    contacts@.subrange(0, i as int).to_set(),
                ),
            decreases contacts@.len() - i,
        {
            let c = contacts[i];
            let ghost prev = self.pending_bootstraps@;
            self.pending_bootstraps.push(c);
            out.push(Action::Send { dst: c, packet: Packet::BootstrapRequest(t) });
            proof {
                let s0 = contacts@.subrange(0, i as int);
                let s = contacts@.subrange(0, i + 1);
                assert(s =~= s0.push(c));
                assert(out@ =~= bootstrap_requests(s, t));
                prev.lemma_push_to_set_commute(c);
                s0.lemma_push_to_set_commute(c);
                assert(self.pending_bootstraps@.to_set() =~= before.to_set().union(s.to_set()));
            }
            i = i + 1;
        }
        assert(contacts@.subrange(0, i as int) =~= contacts@);
        out
    }

    /// Connect to the given peer, unless already connected.
    pub fn connect(&self, dst: SocketAddr) -> (r: Vec<Action>)
        requires
            self.wf(),
        ensures
            self.peers_view().dom().contains(dst) ==> r@ == Seq::<Action>::empty(),
            !self.peers_view().dom().contains(dst) ==> r@ == seq![
                Action::Send {
                    dst,
                    packet: Packet::ConnectRequest(self.config_view().our_type),
                },
            ],
    {
        let mut r = Vec::new();
        if !self.peers.contains_key(&dst) {
            r.push(Action::Send { dst, packet: Packet::ConnectRequest(self.config.our_type) });
        }
        r
    }

    /// Disconnect from the given peer.
    pub fn disconnect(&mut self, dst: SocketAddr) -> (r: Vec<Action>)
        requires
            old(self).wf(),
        ensures
            final(self).wf(),
            final(self).peers_view() == old(self).peers_view().remove(dst),
            final(self).cache_view() == old(self).cache_view(),
            final(self).pending_bootstraps_view() == old(self).pending_bootstraps_view(),
            final(self).pending_view() == old(self).pending_view(),
            final(self).addr_view() == old(self).addr_view(),
            final(self).config_view() == old(self).config_view(),
            old(self).peers_view().dom().contains(dst) ==> r@ == seq![Action::Disconnect { dst }],
            !old(self).peers_view().dom().contains(dst) ==> r@ == Seq::<Action>::empty(),
    {
        let mut r = Vec::new();
        if self.peers.remove(&dst).is_some() {
            r.push(Action::Disconnect { dst });
        }
        r
    }

    /// Send a message to a peer. When not connected to it, a connect request goes out and the
    /// message waits until the connection is made.
    pub fn send(&mut self, dst: Peer, msg: Vec<u8>, token: Token) -> (r: Vec<Action>)
        requires
            old(self).wf(),
            !old(self).peers_view().dom().contains(dst.addr_of()) && old(self).pending_view().dom().contains(
                dst.addr_of(),
            ) ==> old(self).pending_view()[dst.addr_of()].0 == dst.type_of(),
        ensures
            final(self).wf(),
            final(self).peers_view() == old(self).peers_view(),
            final(self).cache_view() == old(self).cache_view(),
            final(self).pending_bootstraps_view() == old(self).pending_bootstraps_view(),
            final(self).addr_view() == old(self).addr_view(),
            final(self).config_view() == old(self).config_view(),
            old(self).peers_view().dom().contains(dst.addr_of()) ==> r@ == seq![
                Action::Send {
                    dst: dst.addr_of(),
                    packet: Packet::Message(Message { dst_type: dst.type_of(), content: msg, token }),
                },
            ] && final(self).pending_view() == old(self).pending_view(),
            !old(self).peers_view().dom().contains(dst.addr_of()) ==> r@ == seq![
                Action::Send {
                    dst: dst.addr_of(),
                    packet: Packet::ConnectRequest(old(self).config_view().our_type),
                },
            ] && final(self).pending_view() == old(self).pending_view().insert(
                dst.addr_of(),
                final(self).pending_view()[dst.addr_of()],
            ) && final(self).pending_view()[dst.addr_of()].0 == dst.type_of() && final(self).pending_view()[dst.addr_of()].1@ == (if old(self).pending_view().dom().contains(
                dst.addr_of(),
            ) {
                old(self).pending_view()[dst.addr_of()].1@
            } else {
                Seq::<(Vec<u8>, Token)>::empty()
            }).push((msg, token)),
    {
        let dst_addr = dst.peer_addr();
        let dst_type = match dst {
            Peer::Client(_) => OurType::Client,
            Peer::Node(_) => OurType::Node,
        };
        let mut r = Vec::new();
        if self.peers.contains_key(&dst_addr) {
            r.push(
                Action::Send {
                    dst: dst_addr,
                    packet: Packet::Message(Message { dst_type, content: msg, token }),
                },
            );
        } else {
            r.push(
                Action::Send { dst: dst_addr, packet: Packet::ConnectRequest(self.config.our_type) },
            );
            self.add_pending_message(dst_addr, dst_type, msg, token);
        }
        r
    }

    fn add_pending_message(&mut self, addr: SocketAddr, t: OurType, msg: Vec<u8>, token: Token)
        requires
            old(self).wf(),
            old(self).pending_view().dom().contains(addr) ==> old(self).pending_view()[addr].0 == t,
        ensures
            final(self).wf(),
            final(self).peers_view() == old(self).peers_view(),
            final(self).cache_view() == old(self).cache_view(),
            final(self).pending_bootstraps_view() == old(self).pending_bootstraps_view(),
            final(self).addr_view() == old(self).addr_view(),
            final(self).config_view() == old(self).config_view(),
            final(self).pending_view() == old(self).pending_view().insert(
                addr,
                final(self).pending_view()[addr],
            ),
            final(self).pending_view()[addr].0 == t,
            final(self).pending_view()[addr].1@ == (if old(self).pending_view().dom().contains(addr) {
                old(self).pending_view()[addr].1@
            } else {
                Seq::<(Vec<u8>, Token)>::empty()
            }).push((msg, token)),
    {
        let (t0, mut msgs) = match self.pending_messages.remove(&addr) {
            Some(entry) => entry,
            None => (t, Vec::new()),
        };
        msgs.push((msg, token));
        let _ = self.pending_messages.insert(addr, (t0, msgs));
        proof {
            assert(self.pending_view() =~= old(self).pending_view().insert(
                addr,
                self.pending_view()[addr],
            ));
        }
    }

    /// Drops this node: disconnects every peer, then fires `Finish`.
    pub fn shutdown(&mut self) -> (r: Vec<Action>)
        requires
            old(self).wf(),
        ensures
            final(self).wf(),
            final(self).peers_view() == Map::<SocketAddr, (ConnectionType, OurType)>::empty(),
            r@.len() == old(self).peers_view().dom().len() + 1,
            forall|i: int|
                0 <= i < r@.len() - 1 ==> (#[trigger] r@[i] matches Action::Disconnect { dst }
                    && old(self).peers_view().dom().contains(dst)),
            forall|i: int, j: int| 0 <= i < j < r@.len() - 1 ==> #[trigger] r@[i] != #[trigger] r@[j],
            forall|a: SocketAddr|
                #[trigger] old(self).peers_view().dom().contains(a) ==> exists|i: int|
                    0 <= i < r@.len() - 1 && #[trigger] r@[i] == (Action::Disconnect { dst: a }),
            r@.last() == Action::Fire(Event::Finish),
    {
        proof {
            self.peers.lemma_view();
        }
        let entries = self.peers.drain();
        let mut r: Vec<Action> = Vec::new();
        let mut i: usize = 0;
        while i < entries.len()
            invariant
                i <= entries@.len(),
                r@.len() == i,
                entries@ == old(self).peers.entries_view(),
                old(self).peers_view() == crate::key_map::to_map(entries@),
                keys_distinct_entries(entries@),
                forall|j: int|
                    0 <= j < i ==> (#[trigger] r@[j] matches Action::Disconnect { dst } && old(self).peers_view().dom().contains(dst)),
                forall|j: int| 0 <= j < i ==> #[trigger] r@[j] == (Action::Disconnect { dst: entries@[j].0 }),
            decreases entries@.len() - i,
        {
            proof {
                crate::key_map::lemma_to_map_index(entries@, i as int);
            }
            r.push(Action::Disconnect { dst: entries[i].0 });
            i = i + 1;
        }
        proof {
            assert forall|a: SocketAddr| #[trigger] old(self).peers_view().dom().contains(a) implies exists|j: int|
                0 <= j < r@.len() && #[trigger] r@[j] == (Action::Disconnect { dst: a }) by {
                crate::key_map::lemma_to_map_dom(entries@, a);
                let j = choose|j: int| 0 <= j < entries@.len() && entries@[j].0 == a;
                assert(r@[j] == (Action::Disconnect { dst: a }));
            }
        }
        let ghost before = r@;
        r.push(Action::Fire(Event::Finish));
        proof {
            assert forall|a: SocketAddr| #[trigger] old(self).peers_view().dom().contains(a) implies exists|j: int|
                0 <= j < r@.len() - 1 && #[trigger] r@[j] == (Action::Disconnect { dst: a }) by {
                let j = choose|j: int| 0 <= j < before.len() && #[trigger] before[j] == (Action::Disconnect { dst: a });
                assert(r@[j] == before[j]);
            }
            assert forall|i2: int, j2: int| 0 <= i2 < j2 < r@.len() - 1 implies #[trigger] r@[i2] != #[trigger] r@[j2] by {
                assert(r@[i2] == before[i2]);
                assert(r@[j2] == before[j2]);
                assert(entries@[i2].0 != entries@[j2].0);
            }
        }
        r
    }

    /// Handles a packet from `src`: answers with the actions to take and, for a user message,
    /// the packet to send back to `src`.
    pub fn receive_packet(&mut self, src: SocketAddr, packet: Packet) -> (r: (Vec<Action>, Option<Packet>))
        requires
            old(self).wf(),
        ensures
            final(self).wf(),
            final(self).addr_view() == old(self).addr_view(),
            final(self).config_view() == old(self).config_view(),
            match packet {
                Packet::BootstrapRequest(t) => {
                    &&& final(self).peers_view() == old(self).peers_view().insert(src, (ConnectionType::Bootstrap, t))
                    &&& final(self).cache_view() == old(self).cache_view()
                    &&& final(self).pending_bootstraps_view() == old(self).pending_bootstraps_view()
                    &&& final(self).pending_view() == old(self).pending_view()
                    &&& r.1 is None
                    &&& r.0@ == if old(self).peers_view().dom().contains(src) {
                        Seq::<Action>::empty()
                    } else {
                        seq![
                            Action::Send { dst: src, packet: Packet::BootstrapSuccess },
                            Action::Fire(Event::ConnectedTo { peer: Peer::spec_new(t, src) }),
                        ]
                    }
                },
                Packet::BootstrapSuccess => {
                    &&& final(self).cache_view() == old(self).cache_view()
                    &&& final(self).pending_view() == old(self).pending_view()
                    &&& r.1 is None
                    &&& !any_bootstrap(old(self).peers_view()) ==> {
                        &&& final(self).peers_view() == old(self).peers_view().insert(
                            src,
                            (ConnectionType::Bootstrap, OurType::Node),
                        )
                        &&& final(self).pending_bootstraps_view() == Set::<SocketAddr>::empty()
                        &&& r.0@ == seq![Action::Fire(Event::BootstrappedTo { node: src })]
                    }
                    &&& any_bootstrap(old(self).peers_view()) ==> {
                        &&& final(self).peers_view() == old(self).peers_view()
                        &&& final(self).pending_bootstraps_view() == old(self).pending_bootstraps_view()
                        &&& r.0@ == seq![Action::Send { dst: src, packet: Packet::Disconnect }]
                    }
                },
                Packet::BootstrapFailure => {
                    &&& final(self).peers_view() == old(self).peers_view()
                    &&& final(self).cache_view() == old(self).cache_view()
                    &&& final(self).pending_view() == old(self).pending_view()
                    &&& r.1 is None
                    &&& !any_bootstrap(old(self).peers_view()) ==> {
                        &&& final(self).pending_bootstraps_view() == old(self).pending_bootstraps_view().remove(src)
                        &&& r.0@ == if final(self).pending_bootstraps_view().is_empty() {
                            seq![Action::Fire(Event::BootstrapFailure)]
                        } else {
                            Seq::<Action>::empty()
                        }
                    }
                    &&& any_bootstrap(old(self).peers_view()) ==> {
                        &&& final(self).pending_bootstraps_view() == old(self).pending_bootstraps_view()
                        &&& r.0@ == Seq::<Action>::empty()
                    }
                },
                Packet::ConnectRequest(t) => {
                    &&& final(self).peers_view() == old(self).peers_view().insert(src, (ConnectionType::Normal, t))
                    &&& final(self).cache_view() == old(self).cache_view()
                    &&& final(self).pending_bootstraps_view() == old(self).pending_bootstraps_view()
                    &&& r.1 is None
                    &&& !old(self).peers_view().dom().contains(src) ==> {
                        &&& final(self).pending_view() == old(self).pending_view().remove(src)
                        &&& r.0@ == seq![Action::Send { dst: src, packet: Packet::ConnectSuccess }]
                            + pending_sends(old(self).pending_view(), src)
                            + seq![Action::Fire(Event::ConnectedTo { peer: Peer::spec_new(t, src) })]
                    }
                    &&& old(self).peers_view().dom().contains(src) ==> {
                        &&& final(self).pending_view() == old(self).pending_view()
                        &&& r.0@ == Seq::<Action>::empty()
                    }
                },
                Packet::ConnectSuccess => {
                    &&& final(self).peers_view() == old(self).peers_view().insert(
                        src,
                        (ConnectionType::Normal, OurType::Node),
                    )
                    &&& final(self).pending_bootstraps_view() == old(self).pending_bootstraps_view()
                    &&& r.1 is None
                    &&& !old(self).peers_view().dom().contains(src) ==> {
                        &&& final(self).cache_view() == (if old(self).cache_view().contains(src) {
                            old(self).cache_view()
                        } else {
                            old(self).cache_view().push(src)
                        })
                        &&& final(self).pending_view() == old(self).pending_view().remove(src)
                        &&& r.0@ == pending_sends(old(self).pending_view(), src) + seq![
                            Action::Fire(Event::ConnectedTo { peer: Peer::Node(src) }),
                        ]
                    }
                    &&& old(self).peers_view().dom().contains(src) ==> {
                        &&& final(self).cache_view() == old(self).cache_view()
                        &&& final(self).pending_view() == old(self).pending_view()
                        &&& r.0@ == Seq::<Action>::empty()
                    }
                },
                Packet::ConnectFailure => {
                    &&& final(self).peers_view() == old(self).peers_view()
                    &&& final(self).cache_view() == old(self).cache_view()
                    &&& final(self).pending_bootstraps_view() == old(self).pending_bootstraps_view()
                    &&& final(self).pending_view() == old(self).pending_view().remove(src)
                    &&& r.1 is None
                    &&& r.0@ == pending_unsent(old(self).pending_view(), src)
                },
                Packet::Message(msg) => {
                    &&& final(self).peers_view() == old(self).peers_view()
                    &&& final(self).cache_view() == old(self).cache_view()
                    &&& final(self).pending_bootstraps_view() == old(self).pending_bootstraps_view()
                    &&& final(self).pending_view() == old(self).pending_view()
                    &&& old(self).peers_view().dom().contains(src) ==> {
                        &&& r.1 == Some(Packet::MessageSent(msg))
                        &&& r.0@.len() == 1
                        &&& r.0@[0] matches Action::Fire(Event::NewMessage { peer, msg: m })
                        &&& peer == Peer::spec_new(old(self).peers_view()[src].1, src)
                        &&& m@ == msg.content@
                    }
                    &&& !old(self).peers_view().dom().contains(src) ==> {
                        &&& r.1 == Some(Packet::MessageFailure(msg))
                        &&& r.0@ == Seq::<Action>::empty()
                    }
                },
                Packet::MessageFailure(msg) => {
                    &&& final(self).peers_view() == old(self).peers_view()
                    &&& final(self).cache_view() == old(self).cache_view()
                    &&& final(self).pending_bootstraps_view() == old(self).pending_bootstraps_view()
                    &&& final(self).pending_view() == old(self).pending_view()
                    &&& r.1 is None
                    &&& r.0@ == seq![
                        Action::Fire(
                            Event::UnsentUserMessage {
                                peer: Peer::spec_new(msg.dst_type, src),
                                msg: msg.content,
                                token: msg.token,
                            },
                        ),
                    ]
                },
                Packet::MessageSent(msg) => {
                    &&& final(self).peers_view() == old(self).peers_view()
                    &&& final(self).cache_view() == old(self).cache_view()
                    &&& final(self).pending_bootstraps_view() == old(self).pending_bootstraps_view()
                    &&& final(self).pending_view() == old(self).pending_view()
                    &&& r.1 is None
                    &&& r.0@ == seq![
                        Action::Fire(
                            Event::SentUserMessage {
                                peer: Peer::spec_new(msg.dst_type, src),
                                msg: msg.content,
                                token: msg.token,
                            },
                        ),
                    ]
                },
                Packet::Disconnect => {
                    &&& final(self).peers_view() == old(self).peers_view().remove(src)
                    &&& final(self).cache_view() == old(self).cache_view()
                    &&& final(self).pending_bootstraps_view() == old(self).pending_bootstraps_view()
                    &&& final(self).pending_view() == old(self).pending_view().remove(src)
                    &&& r.1 is None
                    &&& r.0@ == pending_unsent(old(self).pending_view(), src) + if old(self).peers_view().dom().contains(src) {
                        seq![
                            Action::Fire(
                                Event::ConnectionFailure {
                                    peer: Peer::spec_new(old(self).peers_view()[src].1, src),
                                    err: QuicP2pError,
                                },
                            ),
                        ]
                    } else {
                        Seq::<Action>::empty()
                    }
                },
            },
    {
        let mut actions: Vec<Action> = Vec::new();
        match packet {
            Packet::BootstrapRequest(peer_type) => {
                if self.peers.insert(src, (ConnectionType::Bootstrap, peer_type)).is_none() {
                    actions.push(Action::Send { dst: src, packet: Packet::BootstrapSuccess });
                    actions.push(
                        Action::Fire(Event::ConnectedTo { peer: Peer::new(peer_type, src) }),
                    );
                }
                (actions, None)
            },
            Packet::BootstrapSuccess => {
                if !self.has_bootstrap_connection() {
                    let _ = self.peers.insert(src, (ConnectionType::Bootstrap, OurType::Node));
                    self.pending_bootstraps = Vec::new();
                    assert(self.pending_bootstraps@.to_set() =~= Set::<SocketAddr>::empty());
                    actions.push(Action::Fire(Event::BootstrappedTo { node: src }));
                } else {
                    actions.push(Action::Send { dst: src, packet: Packet::Disconnect });
                }
                (actions, None)
            },
            Packet::BootstrapFailure => {
                if !self.has_bootstrap_connection() {
                    self.remove_pending_bootstrap(src);
                    if self.pending_bootstraps.len() == 0 {
                        assert(self.pending_bootstraps@.to_set() =~= Set::<SocketAddr>::empty());
                        actions.push(Action::Fire(Event::BootstrapFailure));
                    } else {
                        assert(self.pending_bootstraps@.to_set().contains(self.pending_bootstraps@[0]));
                    }
                }
                (actions, None)
            },
            Packet::ConnectRequest(peer_type) => {
                if self.peers.insert(src, (ConnectionType::Normal, peer_type)).is_none() {
                    actions.push(Action::Send { dst: src, packet: Packet::ConnectSuccess });
                    let mut sends = self.send_pending_messages(src);
                    actions.append(&mut sends);
                    actions.push(
                        Action::Fire(Event::ConnectedTo { peer: Peer::new(peer_type, src) }),
                    );
                }
                (actions, None)
            },
            Packet::ConnectSuccess => {
                if self.peers.insert(src, (ConnectionType::Normal, OurType::Node)).is_none() {
                    self.cache_insert(src);
                    let mut sends = self.send_pending_messages(src);
                    actions.append(&mut sends);
                    actions.push(Action::Fire(Event::ConnectedTo { peer: Peer::Node(src) }));
                }
                (actions, None)
            },
            Packet::ConnectFailure => {
                let mut unsent = self.clear_pending_messages(src);
                actions.append(&mut unsent);
                (actions, None)
            },
            Packet::Message(msg) => {
                match self.peers.get(&src) {
                    Some(entry) => {
                        let peer_type = entry.1;
                        actions.push(
                            Action::Fire(
                                Event::NewMessage {
                                    peer: Peer::new(peer_type, src),
                                    msg: msg.content.clone(),
                                },
                            ),
                        );
                        (actions, Some(Packet::MessageSent(msg)))
                    },
                    None => (actions, Some(Packet::MessageFailure(msg))),
                }
            },
            Packet::MessageFailure(msg) => {
                actions.push(
                    Action::Fire(
                        Event::UnsentUserMessage {
                            peer: Peer::new(msg.dst_type, src),
                            msg: msg.content,
                            token: msg.token,
                        },
                    ),
                );
                (actions, None)
            },
            Packet::MessageSent(msg) => {
                actions.push(
                    Action::Fire(
                        Event::SentUserMessage {
                            peer: Peer::new(msg.dst_type, src),
                            msg: msg.content,
                            token: msg.token,
                        },
                    ),
                );
                (actions, None)
            },
            Packet::Disconnect => {
                let mut unsent = self.clear_pending_messages(src);
                actions.append(&mut unsent);
                if let Some((_, peer_type)) = self.peers.remove(&src) {
                    actions.push(
                        Action::Fire(
                            Event::ConnectionFailure {
                                peer: Peer::new(peer_type, src),
                                err: QuicP2pError,
                            },
                        ),
                    );
                }
                (actions, None)
            },
        }
    }

    /// Removes `addr` from the pending bootstraps.
    fn remove_pending_bootstrap(&mut self, addr: SocketAddr)
        requires
            old(self).wf(),
        ensures
            final(self).wf(),
            final(self).pending_bootstraps_view() == old(self).pending_bootstraps_view().remove(addr),
            final(self).peers == old(self).peers,
            final(self).bootstrap_cache == old(self).bootstrap_cache,
            final(self).pending_messages == old(self).pending_messages,
            final(self).addr == old(self).addr,
            final(self).config == old(self).config,
    {
        let mut kept: Vec<SocketAddr> = Vec::new();
        let mut i: usize = 0;
        while i < self.pending_bootstraps.len()
            invariant
                i <= self.pending_bootstraps@.len(),
                forall|j: int| 0 <= j < kept@.len() ==> kept@[j] != addr,
                kept@.to_set() == self.pending_bootstraps@.subrange(0, i as int).to_set().remove(addr),
            decreases self.pending_bootstraps@.len() - i,
        {
            let c = self.pending_bootstraps[i];
            let ghost before = kept@;
            proof {
                let s0 = self.pending_bootstraps@.subrange(0, i as int);
                assert(self.pending_bootstraps@.subrange(0, i + 1) =~= s0.push(c));
                s0.lemma_push_to_set_commute(c);
            }
            if c != addr {
                kept.push(c);
                proof {
                    before.lemma_push_to_set_commute(c);
                }
            }
            i = i + 1;
            assert(kept@.to_set() =~= self.pending_bootstraps@.subrange(0, i as int).to_set().remove(addr));
        }
        assert(self.pending_bootstraps@.subrange(0, i as int) =~= self.pending_bootstraps@);
        self.pending_bootstraps = kept;
    }

    /// Adds `addr` to the cache of peers we connected to, unless it is there.
    fn cache_insert(&mut self, addr: SocketAddr)
        requires
            old(self).wf(),
        ensures
            final(self).wf(),
            final(self).cache_view() == (if old(self).cache_view().contains(addr) {
                old(self).cache_view()
            } else {
                old(self).cache_view().push(addr)
            }),
            final(self).peers == old(self).peers,
            final(self).pending_bootstraps == old(self).pending_bootstraps,
            final(self).pending_messages == old(self).pending_messages,
            final(self).addr == old(self).addr,
            final(self).config == old(self).config,
    {
        if !contains_addr(&self.bootstrap_cache, &addr) {
            let ghost before = self.bootstrap_cache@;
            self.bootstrap_cache.push(addr);
            assert forall|i: int, j: int|
                0 <= i < self.bootstrap_cache@.len() && 0 <= j < self.bootstrap_cache@.len() && i
                    != j implies self.bootstrap_cache@[i] != self.bootstrap_cache@[j] by {
                if i < before.len() && j < before.len() {
                } else if i < before.len() {
                    assert(before.contains(self.bootstrap_cache@[i]));
                } else {
                    assert(before.contains(self.bootstrap_cache@[j]));
                }
            }
        }
    }
}


/// Every message waiting for a peer is accounted for exactly once whichever way the
/// connection attempt ends: the i-th packet sent on connection carries the content and token
/// of the i-th message reported unsent on failure.
pub proof fn law_pending_sent_or_reported(pending: Map<SocketAddr, PendingMessages>, a: SocketAddr)
    ensures
        pending_sends(pending, a).len() == pending_unsent(pending, a).len(),
        forall|i: int|
            0 <= i < pending_sends(pending, a).len() ==> {
                &&& #[trigger] pending_sends(pending, a)[i] matches Action::Send {
                    dst,
                    packet: Packet::Message(m),
                }
                &&& pending_unsent(pending, a)[i] matches Action::Fire(
                    Event::UnsentUserMessage { peer, msg, token },
                )
                &&& dst == a && peer.addr_of() == a
                &&& m.content == msg && m.token == token
                &&& peer.type_of() == m.dst_type
            },
{
}

/// A message given to `send` while not connected is sent, after those queued before it, once
/// the connection is made: `send` leaves the recipient's queue as `queued.push((msg, token))`,
/// and connecting sends the queue in order.
pub proof fn law_queued_message_sent_on_connect(
    pending: Map<SocketAddr, PendingMessages>,
    a: SocketAddr,
    queued: Seq<(Vec<u8>, Token)>,
    msg: Vec<u8>,
    token: Token,
)
    requires
        pending.dom().contains(a),
        pending[a].1@ == queued.push((msg, token)),
    ensures
        pending_sends(pending, a).len() == queued.len() + 1,
        pending_sends(pending, a).last() == (Action::Send {
            dst: a,
            packet: Packet::Message(Message { dst_type: pending[a].0, content: msg, token }),
        }),
        forall|i: int|
            0 <= i < queued.len() ==> #[trigger] pending_sends(pending, a)[i] == (Action::Send {
                dst: a,
                packet: Packet::Message(
                    Message { dst_type: pending[a].0, content: queued[i].0, token: queued[i].1 },
                ),
            }),
{
}

} // verus!
