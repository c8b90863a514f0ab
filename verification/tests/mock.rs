use qp2p::addr::{IpAddr, SocketAddr};
use qp2p::mock::{Action, Config, Event, Node, Packet, QuicP2pError};
use qp2p::peer::{OurType, Peer};
use std::cell::RefCell;
use std::collections::{HashSet, VecDeque};
use std::rc::Rc;

/// The events of one agent: those about nodes are read before those about clients.
#[derive(Default)]
struct Events {
    node: VecDeque<Event>,
    client: VecDeque<Event>,
}

impl Events {
    fn push(&mut self, event: Event) {
        if event.is_node_event() {
            self.node.push_back(event);
        } else {
            self.client.push_back(event);
        }
    }

    fn try_recv(&mut self) -> Option<Event> {
        self.node.pop_front().or_else(|| self.client.pop_front())
    }
}

struct Member {
    addr: SocketAddr,
    node: Rc<RefCell<Node>>,
    events: Rc<RefCell<Events>>,
}

#[derive(Default)]
struct NetworkInner {
    members: Vec<Member>,
    queue: VecDeque<(SocketAddr, SocketAddr, Packet)>,
    next_port: u16,
}

/// A simulated network: packets are delivered in the order they were sent; a packet to an
/// address with no node gets the matching failure back.
#[derive(Clone, Default)]
struct Network(Rc<RefCell<NetworkInner>>);

impl Network {
    fn new() -> Self {
        let inner = NetworkInner { next_port: 10000, ..Default::default() };
        Network(Rc::new(RefCell::new(inner)))
    }

    fn gen_addr(&self) -> SocketAddr {
        let mut inner = self.0.borrow_mut();
        let port = inner.next_port;
        inner.next_port += 1;
        SocketAddr::new(IpAddr::V4(0x7f00_0001), port)
    }

    fn find(&self, addr: &SocketAddr) -> Option<(Rc<RefCell<Node>>, Rc<RefCell<Events>>)> {
        self.0
            .borrow()
            .members
            .iter()
            .find(|m| m.addr == *addr)
            .map(|m| (Rc::clone(&m.node), Rc::clone(&m.events)))
    }

    fn apply(&self, src: SocketAddr, events: &Rc<RefCell<Events>>, actions: Vec<Action>) {
        for action in actions {
            match action {
                Action::Send { dst, packet } => self.0.borrow_mut().queue.push_back((src, dst, packet)),
                Action::Disconnect { dst } => {
                    self.0.borrow_mut().queue.push_back((src, dst, Packet::Disconnect))
                }
                Action::Fire(event) => events.borrow_mut().push(event),
            }
        }
    }

    fn poll(&self) {
        loop {
            let next = self.0.borrow_mut().queue.pop_front();
            let (src, dst, packet) = match next {
                Some(p) => p,
                None => break,
            };
            match self.find(&dst) {
                Some((node, events)) => {
                    let (actions, reply) = node.borrow_mut().receive_packet(src, packet);
                    self.apply(dst, &events, actions);
                    if let Some(reply) = reply {
                        self.0.borrow_mut().queue.push_back((dst, src, reply));
                    }
                }
                None => {
                    let reply = match packet {
                        Packet::BootstrapRequest(_) => Some(Packet::BootstrapFailure),
                        Packet::ConnectRequest(_) => Some(Packet::ConnectFailure),
                        Packet::Message(msg) => Some(Packet::MessageFailure(msg)),
                        _ => None,
                    };
                    if let Some(reply) = reply {
                        self.0.borrow_mut().queue.push_back((dst, src, reply));
                    }
                }
            }
        }
    }
}

struct Agent {
    network: Network,
    addr: SocketAddr,
    node: Rc<RefCell<Node>>,
    events: Rc<RefCell<Events>>,
}

impl Drop for Agent {
    fn drop(&mut self) {
        let actions = self.node.borrow_mut().shutdown();
        self.network.0.borrow_mut().members.retain(|m| m.addr != self.addr);
        self.network.apply(self.addr, &self.events, actions);
    }
}

impl Agent {
    fn node(network: &Network) -> Self {
        Self::with_config(network, Config::node())
    }

    fn client(network: &Network) -> Self {
        Self::with_config(network, Config::client())
    }

    fn with_config(network: &Network, config: Config) -> Self {
        let addr = match (config.ip, config.port) {
            (Some(ip), Some(port)) => SocketAddr::new(ip, port),
            _ => network.gen_addr(),
        };
        let node = Rc::new(RefCell::new(Node::new(addr, config)));
        let events = Rc::new(RefCell::new(Events::default()));
        network.0.borrow_mut().members.push(Member {
            addr,
            node: Rc::clone(&node),
            events: Rc::clone(&events),
        });
        Agent { network: network.clone(), addr, node, events }
    }

    fn bootstrapped_node(network: &Network, bootstrap_addr: SocketAddr) -> Self {
        let config = Config::node().with_hard_coded_contacts(vec![bootstrap_addr]);
        let node = Self::with_config(network, config);
        node.bootstrap();
        network.poll();
        node.expect_bootstrapped_to(&bootstrap_addr);
        node
    }

    fn bootstrapped_client(network: &Network, bootstrap_addr: SocketAddr) -> Self {
        let config = Config::client().with_hard_coded_contacts(vec![bootstrap_addr]);
        let client = Self::with_config(network, config);
        client.bootstrap();
        network.poll();
        client.expect_bootstrapped_to(&bootstrap_addr);
        client
    }

    fn bootstrap(&self) {
        let actions = self.node.borrow_mut().bootstrap();
        self.network.apply(self.addr, &self.events, actions);
    }

    fn connect_to(&self, dst_addr: SocketAddr) {
        let actions = self.node.borrow().connect(dst_addr);
        self.network.apply(self.addr, &self.events, actions);
    }

    fn disconnect_from(&self, dst_addr: SocketAddr) {
        let actions = self.node.borrow_mut().disconnect(dst_addr);
        self.network.apply(self.addr, &self.events, actions);
    }

    fn send(&self, dst_addr: SocketAddr, msg: Vec<u8>, token: u64) {
        let actions = self.node.borrow_mut().send(Peer::Node(dst_addr), msg, token);
        self.network.apply(self.addr, &self.events, actions);
    }

    fn addr(&self) -> SocketAddr {
        self.addr
    }

    fn our_type(&self) -> OurType {
        self.node.borrow().our_type()
    }

    fn try_recv(&self) -> Option<Event> {
        self.events.borrow_mut().try_recv()
    }

    fn expect_bootstrapped_to(&self, addr: &SocketAddr) {
        match self.try_recv() {
            Some(Event::BootstrappedTo { node }) => assert_eq!(node, *addr),
            e => panic!("{:?} is not BootstrappedTo", e),
        }
    }

    fn expect_bootstrapped_to_exactly_one_of(&self, addrs: &[SocketAddr]) -> SocketAddr {
        let actual = match self.try_recv() {
            Some(Event::BootstrappedTo { node }) => node,
            e => panic!("{:?} is not BootstrappedTo", e),
        };
        assert!(addrs.iter().any(|a| *a == actual));
        self.expect_none();
        actual
    }

    fn expect_bootstrap_failure(&self) {
        assert!(matches!(self.try_recv(), Some(Event::BootstrapFailure)));
    }

    fn expect_connected_to_node(&self, addr: &SocketAddr) {
        match self.try_recv() {
            Some(event) => assert_connected_to_node(event, addr),
            None => panic!("no event"),
        }
    }

    fn expect_connected_to_client(&self, addr: &SocketAddr) {
        match self.try_recv() {
            Some(Event::ConnectedTo { peer: Peer::Client(peer_addr) }) => assert_eq!(peer_addr, *addr),
            e => panic!("{:?} is not ConnectedTo a client", e),
        }
    }

    fn expect_connection_failure(&self, addr: &SocketAddr) {
        match self.try_recv() {
            Some(Event::ConnectionFailure { peer, .. }) => assert_eq!(peer.peer_addr(), *addr),
            e => panic!("{:?} is not ConnectionFailure", e),
        }
    }

    fn expect_new_message(&self, src_addr: &SocketAddr, expected_msg: &[u8]) {
        match self.try_recv() {
            Some(Event::NewMessage { peer, msg }) => {
                assert_eq!(peer.peer_addr(), *src_addr);
                assert_eq!(msg, expected_msg.to_vec());
            }
            e => panic!("{:?} is not NewMessage", e),
        }
    }

    fn expect_sent_message(&self, dst_addr: &SocketAddr, expected_msg: &[u8], expected_token: u64) {
        match self.try_recv() {
            Some(Event::SentUserMessage { peer, msg, token }) => {
                assert_eq!(peer.peer_addr(), *dst_addr);
                assert_eq!(msg, expected_msg.to_vec());
                assert_eq!(token, expected_token);
            }
            e => panic!("{:?} is not SentUserMessage", e),
        }
    }

    fn expect_unsent_message(&self, dst_addr: &SocketAddr, expected_msg: &[u8], expected_token: u64) {
        match self.try_recv() {
            Some(Event::UnsentUserMessage { peer, msg, token }) => {
                assert_eq!(peer.peer_addr(), *dst_addr);
                assert_eq!(msg, expected_msg.to_vec());
                assert_eq!(token, expected_token);
            }
            e => panic!("{:?} is not UnsentUserMessage", e),
        }
    }

    fn expect_none(&self) {
        assert!(self.try_recv().is_none());
    }

    fn received_messages(&self, src_addr: &SocketAddr) -> HashSet<Vec<u8>> {
        let mut received = HashSet::new();
        while let Some(Event::NewMessage { peer, msg }) = self.try_recv() {
            assert_eq!(peer.peer_addr(), *src_addr);
            let _ = received.insert(msg);
        }
        received
    }
}

fn assert_connected_to_node(event: Event, addr: &SocketAddr) {
    match event {
        Event::ConnectedTo { peer: Peer::Node(peer_addr) } => assert_eq!(peer_addr, *addr),
        e => panic!("{:?} is not ConnectedTo a node", e),
    }
}

fn establish_connection(network: &Network, a: &Agent, b: &Agent) {
    a.connect_to(b.addr());
    network.poll();

    match a.our_type() {
        OurType::Client => b.expect_connected_to_client(&a.addr()),
        OurType::Node => b.expect_connected_to_node(&a.addr()),
    }

    match b.our_type() {
        OurType::Client => a.expect_connected_to_client(&b.addr()),
        OurType::Node => a.expect_connected_to_node(&b.addr()),
    }
}

fn gen_message(num: usize) -> Vec<u8> {
    format!("message {}", num).into_bytes()
}

#[test]
fn successful_bootstrap_node_to_node() {
    let network = Network::new();
    let a = Agent::node(&network);
    let b = Agent::bootstrapped_node(&network, a.addr());
    a.expect_connected_to_node(&b.addr());
}

#[test]
fn successful_bootstrap_client_to_node() {
    let network = Network::new();
    let a = Agent::node(&network);
    let b = Agent::bootstrapped_client(&network, a.addr());
    a.expect_connected_to_client(&b.addr());
}

#[test]
fn bootstrap_to_nonexisting_node() {
    let network = Network::new();
    let a_addr = network.gen_addr();

    let config = Config::node().with_hard_coded_contacts(vec![a_addr]);
    let b = Agent::with_config(&network, config);
    b.bootstrap();
    network.poll();

    b.expect_bootstrap_failure();
}

#[test]
fn bootstrap_to_multiple_nodes() {
    let network = Network::new();

    let bootstrappers: Vec<_> = (0..3).map(|_| Agent::node(&network)).collect();
    let addrs: Vec<_> = bootstrappers.iter().map(Agent::addr).collect();

    let config = Config::node().with_hard_coded_contacts(addrs.clone());
    let bootstrapee = Agent::with_config(&network, config);
    bootstrapee.bootstrap();
    network.poll();

    let actual_addr = bootstrapee.expect_bootstrapped_to_exactly_one_of(&addrs);

    // The other nodes either don't connect to us or they disconnect afterwards.
    for bootstrapper in bootstrappers {
        if bootstrapper.addr() == actual_addr {
            continue;
        }

        if let Some(event) = bootstrapper.try_recv() {
            assert_connected_to_node(event, &bootstrapee.addr());
            bootstrapper.expect_connection_failure(&bootstrapee.addr());
        }
    }
}

#[test]
fn bootstrap_using_bootstrap_cache() {
    let network = Network::new();

    // Address of a bootstrap node that is currently offline.
    let a_addr = network.gen_addr();

    let config = Config::node().with_hard_coded_contacts(vec![a_addr]);
    let b = Agent::with_config(&network, config);

    let c = Agent::node(&network);

    // B successfully connects to C, thus adding it to its bootstrap cache, then disconnects.
    establish_connection(&network, &b, &c);
    b.disconnect_from(c.addr());
    network.poll();

    // B now bootstraps. Because A (which is a hard-coded contact) is offline, it bootstraps
    // against C which is in the bootstrap cache.
    b.bootstrap();
    network.poll();

    b.expect_bootstrapped_to(&c.addr());
    b.expect_none();
}

#[test]
fn successful_connect_node_to_node() {
    let network = Network::new();
    let a = Agent::node(&network);
    let b = Agent::node(&network);

    establish_connection(&network, &a, &b);
}

#[test]
fn successful_connect_client_to_node() {
    let network = Network::new();
    let a = Agent::client(&network);
    let b = Agent::node(&network);

    establish_connection(&network, &a, &b);
}

#[test]
fn connect_to_nonexisting_node() {
    let network = Network::new();
    let a = Agent::node(&network);
    let b_addr = network.gen_addr();

    a.connect_to(b_addr);
    network.poll();

    a.expect_none();
}

#[test]
fn connect_to_already_connected_node() {
    let network = Network::new();
    let a = Agent::node(&network);
    let b = Agent::node(&network);

    establish_connection(&network, &a, &b);

    a.connect_to(b.addr());
    network.poll();

    a.expect_none();
    b.expect_none();
}

#[test]
fn disconnect_incoming_bootstrap_connection() {
    let network = Network::new();

    let a = Agent::node(&network);
    let b = Agent::bootstrapped_node(&network, a.addr());
    a.expect_connected_to_node(&b.addr());

    b.disconnect_from(a.addr());
    network.poll();

    a.expect_connection_failure(&b.addr());
    b.expect_none();
}

#[test]
fn disconnect_outgoing_bootstrap_connection() {
    let network = Network::new();

    let a = Agent::node(&network);
    let b = Agent::bootstrapped_node(&network, a.addr());
    a.expect_connected_to_node(&b.addr());

    a.disconnect_from(b.addr());
    network.poll();

    a.expect_none();
    b.expect_connection_failure(&a.addr());
}

#[test]
fn disconnect_outgoing_connection() {
    let network = Network::new();

    let a = Agent::node(&network);
    let b = Agent::node(&network);

    establish_connection(&network, &a, &b);

    b.disconnect_from(a.addr());
    network.poll();

    a.expect_connection_failure(&b.addr());
    b.expect_none();
}

#[test]
fn disconnect_incoming_connection() {
    let network = Network::new();

    let a = Agent::node(&network);
    let b = Agent::node(&network);

    establish_connection(&network, &a, &b);

    a.disconnect_from(b.addr());
    network.poll();

    a.expect_none();
    b.expect_connection_failure(&a.addr());
}

#[test]
fn send_to_connected_node() {
    let network = Network::new();

    let a = Agent::node(&network);
    let b = Agent::node(&network);

    establish_connection(&network, &a, &b);

    let msg = gen_message(0);
    a.send(b.addr(), msg.clone(), 0);
    network.poll();

    a.expect_sent_message(&b.addr(), &msg, 0);
    b.expect_new_message(&a.addr(), &msg);
}

#[test]
fn send_to_disconnecting_node() {
    let network = Network::new();
    let a = Agent::node(&network);
    let b = Agent::node(&network);

    establish_connection(&network, &a, &b);

    let msg = gen_message(0);
    a.send(b.addr(), msg.clone(), 0);
    b.disconnect_from(a.addr());
    network.poll();

    a.expect_connection_failure(&b.addr());
    a.expect_unsent_message(&b.addr(), &msg, 0);
    b.expect_none();
}

#[test]
fn send_to_nonexisting_node() {
    let network = Network::new();

    let a = Agent::node(&network);
    let b_addr = network.gen_addr();

    let msg = gen_message(0);
    a.send(b_addr, msg.clone(), 0);
    network.poll();

    a.expect_unsent_message(&b_addr, &msg, 0);
}

#[test]
fn send_without_connecting_first() {
    let network = Network::new();
    let a = Agent::node(&network);
    let b = Agent::node(&network);

    let msg = gen_message(0);
    a.send(b.addr(), msg.clone(), 0);

    network.poll();

    a.expect_connected_to_node(&b.addr());
    a.expect_sent_message(&b.addr(), &msg, 0);
    b.expect_connected_to_node(&a.addr());
    b.expect_new_message(&a.addr(), &msg);
}

#[test]
fn send_multiple_messages_without_connecting_first() {
    let network = Network::new();
    let a = Agent::node(&network);
    let b = Agent::node(&network);

    let msgs = [gen_message(0), gen_message(1), gen_message(2)];

    for (token, msg) in msgs.iter().enumerate() {
        a.send(b.addr(), msg.clone(), token as u64);
    }

    network.poll();

    a.expect_connected_to_node(&b.addr());
    for (token, msg) in msgs.iter().enumerate() {
        a.expect_sent_message(&b.addr(), msg, token as u64);
    }

    b.expect_connected_to_node(&a.addr());

    let received = b.received_messages(&a.addr());
    let expected: HashSet<_> = msgs.iter().cloned().collect();
    assert_eq!(expected, received);
}

#[test]
fn our_connection_info_of_node() {
    let network = Network::new();

    let addr = network.gen_addr();
    let config = Config::node().with_endpoint(addr);
    let node = Agent::with_config(&network, config);

    let node_addr = node.node.borrow().our_connection_info();
    assert_eq!(node_addr, Ok(addr));
}

#[test]
fn our_connection_info_of_client() {
    let network = Network::new();

    let client = Agent::client(&network);

    assert!(client.node.borrow().our_connection_info().is_err());
    assert!(matches!(client.node.borrow().our_connection_info(), Err(QuicP2pError)));
}

#[test]
fn bootstrap_cache() {
    let network = Network::new();

    let a = Agent::node(&network);
    let b = Agent::node(&network);

    assert!(a.node.borrow().bootstrap_cache().is_empty());
    assert!(b.node.borrow().bootstrap_cache().is_empty());

    establish_connection(&network, &a, &b);

    // outgoing connections are cached
    assert!(a.node.borrow().bootstrap_cache().contains(&b.addr()));

    // incoming connections are not cached
    assert!(b.node.borrow().bootstrap_cache().is_empty());
}

#[test]
fn drop_disconnects() {
    let network = Network::new();

    let a = Agent::node(&network);
    let a_addr = a.addr();

    let b = Agent::node(&network);

    establish_connection(&network, &a, &b);

    drop(a);
    network.poll();

    b.expect_connection_failure(&a_addr);
}
