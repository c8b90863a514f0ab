use qp2p::addr::{IpAddr, SocketAddr};
use qp2p::bootstrap_cache::BootstrapCache;
use qp2p::conn_state::{Handshake, PeerMsg};
use qp2p::context::{
    bi_stream_refusal, handle_user_msg, is_ctx_initialised, initialise_ctx, send_failure, start,
    write_outcome,
    Action, Context, Side,
};
use qp2p::errors::ConnectionError;
use qp2p::event::{Event, PeerError};
use qp2p::peer::{OurType, Peer};
use std::collections::{HashSet, VecDeque};

fn addr(port: u16) -> SocketAddr {
    SocketAddr::new(IpAddr::V4(0x7f00_0001), port)
}

fn cache(hard_coded: Vec<SocketAddr>, cached: Vec<SocketAddr>) -> BootstrapCache {
    let stored: VecDeque<SocketAddr> = cached.into_iter().collect();
    BootstrapCache::new(hard_coded, String::from("bootstrap_cache"), Some(stored), false)
}

struct Member {
    addr: SocketAddr,
    ctx: Context,
    events: VecDeque<Event>,
    attempted: Vec<SocketAddr>,
}

/// A simulated QUIC layer between contexts. Connection attempts are settled in the order they
/// were made; an attempt to an address with no context times out.
struct Net {
    members: Vec<Member>,
    work: VecDeque<(usize, Action)>,
    pending: VecDeque<(usize, SocketAddr)>,
}

impl Net {
    fn new() -> Self {
        Net { members: Vec::new(), work: VecDeque::new(), pending: VecDeque::new() }
    }

    fn add(&mut self, port: u16, our_type: OurType, cache: BootstrapCache) -> usize {
        self.members.push(Member {
            addr: addr(port),
            ctx: Context::new(our_type, cache),
            events: VecDeque::new(),
            attempted: Vec::new(),
        });
        self.members.len() - 1
    }

    fn index_of(&self, a: &SocketAddr) -> Option<usize> {
        self.members.iter().position(|m| m.addr == *a)
    }

    fn queue(&mut self, i: usize, actions: Vec<Action>) {
        for a in actions {
            self.work.push_back((i, a));
        }
    }

    fn bootstrap(&mut self, i: usize) {
        let actions = start(&mut self.members[i].ctx);
        self.queue(i, actions);
    }

    fn step(&mut self, i: usize, action: Action) {
        let from = self.members[i].addr;
        match action {
            Action::Connect { addr } => {
                self.members[i].attempted.push(addr);
                self.pending.push_back((i, addr));
            }
            Action::Terminate { addr } => {
                if let Some(pos) = self.pending.iter().position(|p| *p == (i, addr)) {
                    let _ = self.pending.remove(pos);
                    let acts = self.members[i]
                        .ctx
                        .handle_connect_err(addr, &PeerError::ConnectionCancelled);
                    self.queue(i, acts);
                }
            }
            Action::Write { side: _, peer, msg, token } => {
                let user_msg = match &msg {
                    PeerMsg::UserMsg(b) => Some((peer, b.clone(), token)),
                    _ => None,
                };
                if let Some(j) = self.index_of(&peer.peer_addr()) {
                    let acts = self.members[j].ctx.handle_wire_msg(from, msg);
                    self.queue(j, acts);
                    if let Some(a) = write_outcome(peer.peer_addr(), user_msg, Ok(())) {
                        self.queue(i, vec![a]);
                    }
                }
            }
            Action::Fire(event) => self.members[i].events.push_back(event),
            Action::CommunicationError { peer_addr, err, unsent } => {
                let acts = self.members[i].ctx.handle_connect_err(peer_addr, &err);
                self.queue(i, acts);
                if let Some((peer, msg, token)) = unsent {
                    self.members[i].events.push_back(Event::UnsentUserMessage { peer, msg, token });
                }
            }
            _ => {}
        }
    }

    fn settle_next(&mut self) {
        let (i, to) = match self.pending.pop_front() {
            Some(p) => p,
            None => return,
        };
        let initiated = match self.members[i].ctx.connections.get(&to) {
            Some(c) => c.to_peer.is_initiated(),
            None => false,
        };
        if !initiated {
            return;
        }
        let from = self.members[i].addr;
        match self.index_of(&to) {
            Some(j) => {
                let acts = self.members[j].ctx.handle_new_incoming_conn(from);
                self.queue(j, acts);
                self.drain();
                let acts = self.members[i].ctx.handle_new_connection_res(to, Ok(()));
                self.queue(i, acts);
            }
            None => {
                let acts = self.members[i]
                    .ctx
                    .handle_new_connection_res(to, Err(ConnectionError::TimedOut));
                self.queue(i, acts);
            }
        }
    }

    fn drain(&mut self) {
        while let Some((i, a)) = self.work.pop_front() {
            self.step(i, a);
        }
    }

    fn run(&mut self) {
        loop {
            self.drain();
            if self.pending.is_empty() {
                break;
            }
            self.settle_next();
        }
    }

    fn established_count(&self, i: usize) -> usize {
        let keys = self.members[i].ctx.connections.keys();
        keys.iter()
            .filter(|k| match self.members[i].ctx.connections.get(k) {
                Some(c) => c.to_peer.is_established(),
                None => false,
            })
            .count()
    }

    fn bootstrapped_to(&mut self, i: usize) -> Option<SocketAddr> {
        while let Some(e) = self.members[i].events.pop_front() {
            if let Event::BootstrappedTo { node } = e {
                return Some(node);
            }
        }
        None
    }
}

fn test_bootstrap_to_multiple_peers(num_conns: u16) {
    let mut net = Net::new();
    let mut bs_peer_addrs = HashSet::new();
    let mut hcc_contacts = Vec::new();

    for i in 0..num_conns {
        let idx = net.add(5000 + i, OurType::Node, cache(vec![], vec![]));
        let our_addr = net.members[idx].addr;
        assert!(bs_peer_addrs.insert(our_addr));
        hcc_contacts.push(our_addr);
    }

    let client = net.add(6000, OurType::Node, cache(hcc_contacts, vec![]));
    net.bootstrap(client);
    net.run();

    match net.members[client].events.pop_front() {
        Some(Event::BootstrappedTo { node }) => assert!(bs_peer_addrs.contains(&node)),
        ev => panic!("Unexpected event: {:?}", ev),
    }

    // We expect only 1 bootstrap connection to succeed.
    assert_eq!(net.established_count(client), 1);
}

#[test]
fn bootstrap_to_only_one_node_with_delays() {
    test_bootstrap_to_multiple_peers(4);
}

#[test]
fn bootstrap_to_only_one_node_without_delays() {
    test_bootstrap_to_multiple_peers(4);
}

#[test]
fn bootstrap_prioritise_cache() {
    const NODES_COUNT: u16 = 8;
    let mut net = Net::new();
    let mut cached = Vec::new();
    let mut hard_coded = Vec::new();
    for i in 0..(NODES_COUNT / 2) {
        let c = net.add(7000 + i, OurType::Node, cache(vec![], vec![]));
        cached.push(net.members[c].addr);
        let h = net.add(7100 + i, OurType::Node, cache(vec![], vec![]));
        hard_coded.push(net.members[h].addr);
    }

    let node = net.add(7200, OurType::Client, cache(hard_coded, cached.clone()));
    net.bootstrap(node);
    net.run();

    assert!(net.bootstrapped_to(node).is_some());
    let attempted = &net.members[node].attempted;
    let expected: Vec<SocketAddr> = cached.iter().rev().copied().collect();
    assert_eq!(&attempted[0..(NODES_COUNT as usize / 2)], expected.as_slice());
}

#[test]
fn node_will_attempt_hard_coded_contacts() {
    let mut net = Net::new();
    let peer1 = net.add(8000, OurType::Node, cache(vec![], vec![]));
    let peer1_addr = net.members[peer1].addr;
    let peer2 = net.add(8001, OurType::Node, cache(vec![peer1_addr], vec![]));
    let peer2_addr = net.members[peer2].addr;

    net.bootstrap(peer2);
    net.run();

    assert_eq!(net.bootstrapped_to(peer2), Some(peer1_addr));

    let c = net.members[peer1].ctx.connections.get(&peer2_addr).unwrap();
    assert!(c.from_peer.is_established() && c.to_peer.is_established());

    let c = net.members[peer2].ctx.connections.get(&peer1_addr).unwrap();
    assert!(c.to_peer.is_established() && c.from_peer.is_established());
}

#[test]
fn client_will_attempt_hard_coded_contacts() {
    let mut net = Net::new();
    let peer1 = net.add(8100, OurType::Node, cache(vec![], vec![]));
    let peer1_addr = net.members[peer1].addr;
    let peer2 = net.add(8101, OurType::Client, cache(vec![peer1_addr], vec![]));
    let peer2_addr = net.members[peer2].addr;

    net.bootstrap(peer2);
    net.run();

    assert_eq!(net.bootstrapped_to(peer2), Some(peer1_addr));

    let c = net.members[peer1].ctx.connections.get(&peer2_addr).unwrap();
    assert!(c.from_peer.is_established() && c.to_peer.is_not_needed());

    let c = net.members[peer2].ctx.connections.get(&peer1_addr).unwrap();
    assert!(c.to_peer.is_established() && c.from_peer.is_not_needed());
}

#[test]
fn node_will_attempt_cached_peers() {
    let mut net = Net::new();
    let peer1 = net.add(8200, OurType::Node, cache(vec![], vec![]));
    let peer1_addr = net.members[peer1].addr;
    let peer2 = net.add(8201, OurType::Node, cache(vec![], vec![peer1_addr]));

    net.bootstrap(peer2);
    net.run();

    assert_eq!(net.bootstrapped_to(peer2), Some(peer1_addr));
}

#[test]
fn node_will_report_failure_when_bootstrap_cache_and_hard_coded_contacts_are_empty() {
    let mut net = Net::new();
    let peer = net.add(8300, OurType::Node, cache(vec![], vec![]));

    net.bootstrap(peer);
    net.run();

    assert!(net.members[peer].events.iter().any(|e| matches!(e, Event::BootstrapFailure)));
}

#[test]
fn node_will_report_failure_when_bootstrap_cache_and_hard_coded_contacts_are_invalid() {
    let mut net = Net::new();
    let dummy_node_addr = addr(37692);
    let peer = net.add(8400, OurType::Node, cache(vec![dummy_node_addr], vec![]));

    net.bootstrap(peer);
    net.run();

    assert!(net.members[peer].events.iter().any(|e| matches!(e, Event::BootstrapFailure)));
}

#[test]
fn when_peer_is_node_and_we_contacted_it_before_it_is_moved_to_bootstrap_cache_top() {
    let peer1_addr = addr(9001);
    let peer2_addr = addr(9002);
    let peer = Peer::Node(peer1_addr);
    let mut bootstrap_cache = cache(vec![], vec![]);
    let _ = bootstrap_cache.add_peer(peer1_addr);
    let _ = bootstrap_cache.add_peer(peer2_addr);

    let _ = handle_user_msg(peer, vec![], &mut bootstrap_cache, true);

    let cached_peers: Vec<_> = bootstrap_cache.peers().iter().cloned().collect();
    assert_eq!(cached_peers, vec![peer2_addr, peer1_addr]);
}

#[test]
fn user_message_from_peer_not_contacted_leaves_cache() {
    let peer1_addr = addr(9001);
    let peer2_addr = addr(9002);
    let mut bootstrap_cache = cache(vec![], vec![]);
    let _ = bootstrap_cache.add_peer(peer1_addr);
    let _ = bootstrap_cache.add_peer(peer2_addr);

    let actions = handle_user_msg(Peer::Node(peer1_addr), vec![7], &mut bootstrap_cache, false);

    let cached_peers: Vec<_> = bootstrap_cache.peers().iter().cloned().collect();
    assert_eq!(cached_peers, vec![peer1_addr, peer2_addr]);
    assert_eq!(actions.len(), 1);
    match &actions[0] {
        Action::Fire(Event::NewMessage { peer, msg }) => {
            assert_eq!(*peer, Peer::Node(peer1_addr));
            assert_eq!(*msg, vec![7]);
        }
        a => panic!("Unexpected action {:?}", a),
    }
}

#[test]
fn connecting_twice_is_refused() {
    let mut ctx = Context::new(OurType::Node, cache(vec![], vec![]));
    let peer = addr(9100);
    let first = ctx.connect_to(peer, None, None).unwrap();
    assert_eq!(first.len(), 2);
    assert!(matches!(first[0], Action::ScheduleKill { addr } if addr == peer));
    assert!(matches!(first[1], Action::Connect { addr } if addr == peer));
    match ctx.connect_to(peer, None, None) {
        Err(PeerError::DuplicateConnectionToPeer { peer_addr }) => assert_eq!(peer_addr, peer),
        r => panic!("Unexpected {:?}", r),
    }
    assert!(ctx.connections.get(&peer).unwrap().to_peer.is_initiated());
}

#[test]
fn messages_wait_for_the_connection_in_order() {
    let mut ctx = Context::new(OurType::Node, cache(vec![], vec![]));
    let peer = addr(9200);
    let _ = ctx.try_write_to_peer(Peer::Node(peer), PeerMsg::UserMsg(vec![1]), 1);
    let _ = ctx.try_write_to_peer(Peer::Node(peer), PeerMsg::UserMsg(vec![2]), 2);
    let actions = ctx.handle_new_connection_res(peer, Ok(()));
    let writes: Vec<(Vec<u8>, u64)> = actions
        .iter()
        .filter_map(|a| match a {
            Action::Write { side: Side::ToPeer, msg: PeerMsg::UserMsg(b), token, .. } => {
                Some((b.clone(), *token))
            }
            _ => None,
        })
        .collect();
    assert_eq!(writes, vec![(vec![1], 1), (vec![2], 2)]);
    assert!(matches!(
        actions[0],
        Action::Write { msg: PeerMsg::Handshake(Handshake::Node), token: 0, .. }
    ));
    assert!(ctx.connections.get(&peer).unwrap().to_peer.is_established());
}

#[test]
fn writing_to_unknown_peer_fails() {
    let ctx = Context::new(OurType::Node, cache(vec![], vec![]));
    let r = ctx.write_to_peer(Peer::Client(addr(9300)), PeerMsg::EndpointEchoReq, 0);
    assert!(matches!(r, Err(PeerError::UnknownPeer)));
}

#[test]
fn writing_to_peer_being_connected_to_fails() {
    let mut ctx = Context::new(OurType::Node, cache(vec![], vec![]));
    let peer = addr(9301);
    let _ = ctx.connect_to(peer, None, None);
    let r = ctx.write_to_peer(Peer::Node(peer), PeerMsg::EndpointEchoReq, 0);
    assert!(matches!(r, Err(PeerError::InvalidState { peer_addr }) if peer_addr == peer));
}

#[test]
fn client_not_connected_to_us_is_reported() {
    let mut ctx = Context::new(OurType::Node, cache(vec![], vec![]));
    let client = addr(9302);
    let _ = ctx.handle_new_incoming_conn(client);
    let _ = ctx.handle_wire_msg(client, PeerMsg::Handshake(Handshake::Client));
    assert!(ctx.connections.get(&client).unwrap().to_peer.is_not_needed());
    let mut other = Context::new(OurType::Node, cache(vec![], vec![]));
    let _ = other.handle_new_incoming_conn(client);
    let _ = other.handle_wire_msg(client, PeerMsg::Handshake(Handshake::Client));
    let _ = other.kill_if_incomplete(client);
    assert!(other.connections.get(&client).is_some());
    let before = ctx.connections.len();
    let result = ctx.try_write_to_peer(Peer::Client(addr(9303)), PeerMsg::UserMsg(vec![5]), 3);
    assert!(matches!(result, Err(PeerError::UnknownPeer)));
    assert_eq!(ctx.connections.len(), before);
    assert!(ctx.connections.get(&addr(9303)).is_none());
    match send_failure(Peer::Client(addr(9303)), PeerError::UnknownPeer, &PeerMsg::UserMsg(vec![5]), 3) {
        Action::CommunicationError { peer_addr, err: PeerError::UnknownPeer, unsent: Some((p, m, t)) } => {
            assert_eq!(peer_addr, addr(9303));
            assert_eq!(p, Peer::Client(addr(9303)));
            assert_eq!(m, vec![5]);
            assert_eq!(t, 3);
        }
        a => panic!("Unexpected {:?}", a),
    }
    let other_client = addr(9304);
    let _ = ctx.handle_new_incoming_conn(other_client);
    assert!(matches!(
        ctx.try_write_to_peer(Peer::Client(other_client), PeerMsg::UserMsg(vec![6]), 4),
        Err(PeerError::InvalidState { peer_addr }) if peer_addr == other_client
    ));
}

#[test]
fn connected_client_is_written_to() {
    let mut ctx = Context::new(OurType::Node, cache(vec![], vec![]));
    let client = addr(9305);
    let _ = ctx.handle_new_incoming_conn(client);
    let _ = ctx.handle_wire_msg(client, PeerMsg::Handshake(Handshake::Client));
    match ctx.try_write_to_peer(Peer::Client(client), PeerMsg::UserMsg(vec![7]), 5) {
        Ok(actions) => assert!(matches!(
            &actions[..],
            [Action::Write { side: Side::FromPeer, peer: Peer::Client(a), msg: PeerMsg::UserMsg(m), token: 5 }]
                if *a == client && *m == vec![7]
        )),
        r => panic!("Unexpected {:?}", r),
    }
}

#[test]
fn echo_request_is_answered_with_the_peer_address() {
    let mut ctx = Context::new(OurType::Node, cache(vec![], vec![]));
    let peer = addr(9400);
    let actions = ctx.dispatch_wire_msg(Peer::Client(peer), Side::FromPeer, PeerMsg::EndpointEchoReq, false);
    match &actions[..] {
        [Action::Write { side: Side::FromPeer, peer: p, msg: PeerMsg::EndpointEchoResp(a), token: 0 }] => {
            assert_eq!(*p, Peer::Client(peer));
            assert_eq!(*a, peer);
        }
        a => panic!("Unexpected {:?}", a),
    }
}

#[test]
fn echo_response_is_handed_over_once() {
    let mut ctx = Context::new(OurType::Node, cache(vec![], vec![]));
    ctx.awaiting_echo = true;
    let peer = addr(9401);
    let ours = addr(1234);
    let first = ctx.dispatch_wire_msg(Peer::Node(peer), Side::ToPeer, PeerMsg::EndpointEchoResp(ours), false);
    assert!(matches!(first[..], [Action::InformOurAddr { addr }] if addr == ours));
    let second = ctx.dispatch_wire_msg(Peer::Node(peer), Side::ToPeer, PeerMsg::EndpointEchoResp(ours), false);
    assert!(second.is_empty());
}

#[test]
fn incomplete_connection_is_killed() {
    let mut ctx = Context::new(OurType::Node, cache(vec![], vec![]));
    let peer = addr(9500);
    let _ = ctx.connect_to(peer, None, None);
    let actions = ctx.kill_if_incomplete(peer);
    assert!(ctx.connections.get(&peer).is_none());
    assert!(matches!(actions[..], [Action::Terminate { addr }] if addr == peer));
}

#[test]
fn failed_connection_drops_state() {
    let mut ctx = Context::new(OurType::Node, cache(vec![], vec![]));
    let peer = addr(9501);
    let _ = ctx.connect_to(peer, None, None);
    let actions = ctx.handle_new_connection_res(peer, Err(ConnectionError::TimedOut));
    assert!(ctx.connections.get(&peer).is_none());
    assert!(matches!(actions[..], [Action::Terminate { addr }] if addr == peer));
    let dup = ctx.handle_connect_err(peer, &PeerError::DuplicateConnectionToPeer { peer_addr: peer });
    assert!(dup.is_empty());
}

#[test]
fn bi_directional_stream_is_refused() {
    let peer = addr(9600);
    match bi_stream_refusal(peer, Ok(())) {
        Action::CommunicationError { peer_addr, err: PeerError::BiDirectionalStreamAttempted { peer_addr: p }, unsent: None } => {
            assert_eq!(peer_addr, peer);
            assert_eq!(p, peer);
        }
        a => panic!("Unexpected {:?}", a),
    }
    match bi_stream_refusal(peer, Err(ConnectionError::TimedOut)) {
        Action::CommunicationError { err: PeerError::Connection(ConnectionError::TimedOut), .. } => {}
        a => panic!("Unexpected {:?}", a),
    }
}

#[test]
fn disallow_bidirectional_streams() {
    let mut ctx = Context::new(OurType::Node, cache(vec![], vec![]));
    let client = addr(9601);
    let _ = ctx.handle_new_incoming_conn(client);
    let _ = ctx.handle_wire_msg(client, PeerMsg::Handshake(Handshake::Client));
    let (peer_addr, err) = match bi_stream_refusal(client, Ok(())) {
        Action::CommunicationError { peer_addr, err, unsent: None } => (peer_addr, err),
        a => panic!("Unexpected {:?}", a),
    };
    let actions = ctx.handle_connect_err(peer_addr, &err);
    assert!(ctx.connections.get(&client).is_none());
    match &actions[..] {
        [.., Action::Fire(Event::ConnectionFailure { peer, err: PeerError::ConnectionCancelled })] => {
            assert_eq!(peer.peer_addr(), client);
        }
        a => panic!("Unexpected {:?}", a),
    }
}

#[test]
fn sent_message_is_reported() {
    let peer = Peer::Node(addr(9700));
    match write_outcome(addr(9700), Some((peer, vec![1, 2], 9)), Ok(())) {
        Some(Action::Fire(Event::SentUserMessage { peer: p, msg, token })) => {
            assert_eq!(p, peer);
            assert_eq!(msg, vec![1, 2]);
            assert_eq!(token, 9);
        }
        a => panic!("Unexpected {:?}", a),
    }
    assert!(write_outcome(addr(9700), None, Ok(())).is_none());
    assert!(matches!(
        write_outcome(addr(9700), None, Err(PeerError::UnknownPeer)),
        Some(Action::CommunicationError { err: PeerError::UnknownPeer, unsent: None, .. })
    ));
}

#[test]
fn context_slot_is_set_once() {
    let mut slot: Option<Context> = None;
    assert!(!is_ctx_initialised(&slot));
    initialise_ctx(&mut slot, Context::new(OurType::Client, cache(vec![], vec![])));
    assert!(is_ctx_initialised(&slot));
}

#[test]
fn bootstrap_ends_other_attempts_of_the_group() {
    let mut net = Net::new();
    let a = net.add(9800, OurType::Node, cache(vec![], vec![]));
    let b = net.add(9801, OurType::Node, cache(vec![], vec![]));
    let a_addr = net.members[a].addr;
    let b_addr = net.members[b].addr;
    let offline = addr(9899);
    let client = net.add(9802, OurType::Client, cache(vec![a_addr, b_addr, offline], vec![]));

    net.bootstrap(client);
    net.run();

    assert_eq!(net.bootstrapped_to(client), Some(a_addr));
    assert!(net.members[client].ctx.connections.get(&b_addr).is_none());
    assert!(net.members[client].ctx.connections.get(&offline).is_none());
    assert!(!net.members[client].events.iter().any(|e| matches!(e, Event::BootstrapFailure)));
}

#[test]
fn early_message_is_reported_once_connected() {
    let mut ctx = Context::new(OurType::Node, cache(vec![], vec![]));
    let peer = addr(9900);
    let _ = ctx.handle_new_incoming_conn(peer);
    let _ = ctx.connect_to(peer, None, None).unwrap();
    let early = ctx.handle_wire_msg(peer, PeerMsg::UserMsg(vec![42]));
    assert!(early.is_empty());
    let actions = ctx.handle_new_connection_res(peer, Ok(()));
    assert!(matches!(actions[0], Action::Fire(Event::ConnectedTo { peer: Peer::Node(a) }) if a == peer));
    match &actions[1] {
        Action::Fire(Event::NewMessage { peer: p, msg }) => {
            assert_eq!(*p, Peer::Node(peer));
            assert_eq!(*msg, vec![42]);
        }
        a => panic!("Unexpected {:?}", a),
    }
    let c = ctx.connections.get(&peer).unwrap();
    assert!(c.to_peer.is_established() && c.from_peer.is_established());
}

#[test]
fn last_failed_bootstrap_attempt_reports_failure() {
    let offline = addr(9950);
    let mut ctx = Context::new(OurType::Node, cache(vec![offline], vec![]));
    let started = start(&mut ctx);
    assert_eq!(started.len(), 2);
    let actions = ctx.handle_new_connection_res(offline, Err(ConnectionError::TimedOut));
    assert!(actions.iter().any(|a| matches!(a, Action::Fire(Event::BootstrapFailure))));
    assert!(ctx.connections.get(&offline).is_none());
}
