use qp2p::addr::{IpAddr, SocketAddr};
use qp2p::errors::ConnectionError;
use qp2p::event::{Event, PeerError};
use qp2p::msg_frame::{frame, unframe, BodyKind};
use qp2p::peer::Peer;

fn v6(segs: [u16; 8], port: u16) -> SocketAddr {
    let mut v: u128 = 0;
    for seg in segs.iter() {
        v = (v << 16) | u128::from(*seg);
    }
    SocketAddr::new(IpAddr::V6(v), port)
}

fn v4(ip: [u8; 4], port: u16) -> SocketAddr {
    SocketAddr::new(IpAddr::V4(u32::from_be_bytes(ip)), port)
}

#[test]
fn ipv4_addresses_are_written_in_dotted_decimal() {
    assert_eq!(v4([127, 0, 0, 1], 8080).to_display_string(), "127.0.0.1:8080");
    assert_eq!(v4([0, 0, 0, 0], 0).to_display_string(), "0.0.0.0:0");
    assert_eq!(v4([255, 255, 255, 255], 65535).to_display_string(), "255.255.255.255:65535");
    assert_eq!(v4([10, 200, 3, 45], 12).to_display_string(), "10.200.3.45:12");
}

#[test]
fn ipv6_addresses_compress_the_first_longest_zero_run() {
    let cases: [([u16; 8], &str); 10] = [
        ([0, 0, 0, 0, 0, 0, 0, 0], "[::]:443"),
        ([0, 0, 0, 0, 0, 0, 0, 1], "[::1]:443"),
        ([0x2001, 0xdb8, 0, 0, 0, 0, 0, 1], "[2001:db8::1]:443"),
        ([0x2001, 0xdb8, 0, 0, 1, 0, 0, 1], "[2001:db8::1:0:0:1]:443"),
        ([0x2001, 0, 0xdb8, 0, 1, 0, 0, 0], "[2001:0:db8:0:1::]:443"),
        ([1, 0, 2, 0, 3, 0, 4, 0], "[1:0:2:0:3:0:4:0]:443"),
        ([0, 0, 0, 0, 0, 0xffff, 0xc0a8, 0x0101], "[::ffff:192.168.1.1]:443"),
        ([0, 0, 0, 0, 0, 0, 0xc0a8, 0x0101], "[::c0a8:101]:443"),
        ([0xfe80, 0, 0, 0, 0x1ff, 0xfe23, 0x4567, 0x890a], "[fe80::1ff:fe23:4567:890a]:443"),
        ([0xffff, 0xffff, 0xffff, 0xffff, 0xffff, 0xffff, 0xffff, 0xffff], "[ffff:ffff:ffff:ffff:ffff:ffff:ffff:ffff]:443"),
    ];
    for (segs, text) in cases.iter() {
        assert_eq!(v6(*segs, 443).to_display_string(), *text);
    }
}

#[test]
fn ipv6_scope_is_written_and_kept_apart() {
    let ip: u128 = 0xfe80 << 112 | 1;
    let plain = SocketAddr::new_v6(ip, 80, 0, 0);
    let scoped = SocketAddr::new_v6(ip, 80, 0, 3);
    let flow = SocketAddr::new_v6(ip, 80, 7, 0);
    assert_eq!(plain.to_display_string(), "[fe80::1]:80");
    assert_eq!(scoped.to_display_string(), "[fe80::1%3]:80");
    assert_eq!(flow.to_display_string(), "[fe80::1]:80");
    assert_ne!(plain, scoped);
    assert_ne!(plain, flow);
}

#[test]
fn peers_are_written_with_their_type() {
    let a = SocketAddr::new(IpAddr::V4(0x0a00_0002), 9000);
    assert_eq!(Peer::Node(a).to_display_string(), "Peer::Node(10.0.0.2:9000)");
    assert_eq!(Peer::Client(a).to_display_string(), "Peer::Client(10.0.0.2:9000)");
}

#[test]
fn events_are_written_as_text() {
    let a = SocketAddr::new(IpAddr::V4(0x7f00_0001), 1234);
    assert_eq!(Event::BootstrapFailure.to_display_string(), "Event::BootstrapFailure");
    assert_eq!(Event::Finish.to_display_string(), "Event::Finish");
    assert_eq!(
        Event::BootstrappedTo { node: a }.to_display_string(),
        "Event::BootstrappedTo { node: 127.0.0.1:1234 }"
    );
    assert_eq!(
        Event::ConnectionFailure { peer: Peer::Client(a), err: PeerError::UnknownPeer }.to_display_string(),
        "Event::ConnectionFailure { peer: 127.0.0.1:1234, err: Unknown Peer }"
    );
    assert_eq!(
        Event::SentUserMessage { peer: Peer::Node(a), msg: vec![1, 2, 3], token: 42 }.to_display_string(),
        "Event::SentUserMessage { peer: 127.0.0.1:1234, msg: [ [1, 2, 3] ], token: 42 }"
    );
    assert_eq!(
        Event::UnsentUserMessage { peer: Peer::Node(a), msg: vec![0, 1, 2, 3, 4, 5, 6, 255], token: 0 }
            .to_display_string(),
        "Event::UnsentUserMessage { peer: 127.0.0.1:1234, msg: [ 00 01 02 03..04 05 06 ff ], token: 0 }"
    );
    assert_eq!(
        Event::ConnectedTo { peer: Peer::Node(a) }.to_display_string(),
        "Event::ConnectedTo { peer: Peer::Node(127.0.0.1:1234) }"
    );
    assert_eq!(
        Event::NewMessage { peer: Peer::Client(a), msg: vec![] }.to_display_string(),
        "Event::NewMessage { peer: 127.0.0.1:1234, msg: [ [] ] }"
    );
}

#[test]
fn peer_errors_are_described() {
    let a = SocketAddr::new(IpAddr::V4(0x7f00_0001), 7);
    assert_eq!(PeerError::UnknownPeer.to_display_string(), "Unknown Peer");
    assert_eq!(
        PeerError::InvalidState { peer_addr: a }.to_display_string(),
        "Peer 127.0.0.1:7 is in invalid state to be communicated to"
    );
    assert_eq!(PeerError::ConnectionCancelled.to_display_string(), "Connection cancelled");
    assert_eq!(
        PeerError::Connection(ConnectionError::TimedOut).to_display_string(),
        "The QUIC connection failed"
    );
}

#[test]
fn framed_bodies_are_read_back() {
    assert_eq!(frame(BodyKind::User, vec![1, 2]), vec![1, 2, 0]);
    assert_eq!(frame(BodyKind::Serialised, vec![7]), vec![7, 1]);
    assert_eq!(unframe(vec![1, 2, 0]), Some((BodyKind::User, vec![1, 2])));
    assert_eq!(unframe(vec![7, 1]), Some((BodyKind::Serialised, vec![7])));
    assert_eq!(unframe(vec![]), None);
    assert_eq!(unframe(vec![7, 2]), None);
}
