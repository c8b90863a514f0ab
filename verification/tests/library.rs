use qp2p::addr::{IpAddr, SocketAddr};
use qp2p::backoff::{Backoff, BackoffRef, RetryError, RetryStep};
use qp2p::checksum::{hash_correct, with_hash};
use qp2p::config::{
    lease_secs, parse_millis, Config, InternalConfig, ParseMillisError, DEFAULT_IDLE_TIMEOUT_MS,
    DEFAULT_UPNP_LEASE_DURATION_MS,
};
use qp2p::connection_pool::{ConnectionPool, IdGen, XorName};
use qp2p::connection_deduplicator::{connect_step, ConnectStep, ConnectionDeduplicator, DedupHandle};
use qp2p::dirs::{test_dir_name, OverRide};
use qp2p::errors::{
    ConfigError, ConnectErrorKind, ConnectionError, InternalConfigError, RecvError, SendError,
};
use qp2p::event_loop::EventLoopMsg;
use qp2p::mock::Config as MockConfig;
use qp2p::peer::{OurType, Peer};
use qp2p::streams::{
    bi_stream_step, close_reason, echo_reply, uni_stream_step, verification_reply, AnyStep, BiStep, ConnectAny,
    StreamMsg, UniStep,
};
use qp2p::utils::bin_data_format;
use qp2p::wire_msg::{MsgHeader, WireMsg, MSG_HEADER_LEN};

fn addr(port: u16) -> SocketAddr {
    SocketAddr::new(IpAddr::V4(0x7f00_0001), port)
}

#[test]
fn bin_data_format_of_short_data_lists_the_bytes() {
    assert_eq!(bin_data_format(&[1, 2, 3]), "[ [1, 2, 3] ]");
    assert_eq!(bin_data_format(&[]), "[ [] ]");
    assert_eq!(bin_data_format(&[0, 255, 10, 100, 9, 99, 200]), "[ [0, 255, 10, 100, 9, 99, 200] ]");
}

#[test]
fn bin_data_format_of_long_data_shows_both_ends() {
    let data: Vec<u8> = (0..20).collect();
    assert_eq!(bin_data_format(&data), "[ 00 01 02 03..10 11 12 13 ]");
    assert_eq!(bin_data_format(&[0xab; 8]), "[ ab ab ab ab..ab ab ab ab ]");
}

#[test]
fn msg_header_bytes_are_big_endian() {
    let header = MsgHeader::new(&[1, 2], &[3], &[4, 5, 6]).unwrap();
    assert_eq!(header.user_header_len(), 2);
    assert_eq!(header.user_dst_len(), 1);
    assert_eq!(header.user_payload_len(), 3);
    assert_eq!(header.to_bytes(), [0, 2, 0, 0, 0, 2, 0, 0, 0, 1, 0, 0, 0, 3, 0, 0]);
    assert_eq!(MsgHeader::from_bytes(header.to_bytes()), header);
}

#[test]
fn wire_msg_round_trips() {
    let msg = WireMsg((vec![1, 2], vec![3], vec![4, 5, 6]));
    let bytes = msg.to_stream_bytes().unwrap();
    assert_eq!(bytes.len(), MSG_HEADER_LEN + 6);
    let mut header = [0u8; 16];
    header.copy_from_slice(&bytes[..16]);
    let back = WireMsg::from_stream_bytes(header, bytes[16..].to_vec()).unwrap();
    assert_eq!(back.0, (vec![1, 2], vec![3], vec![4, 5, 6]));
}

#[test]
fn wire_msg_errors() {
    let header = MsgHeader::new(&[1], &[], &[2]).unwrap().to_bytes();
    assert_eq!(WireMsg::from_stream_bytes(header, vec![]).err(), Some(RecvError::EmptyMsgPayload));
    assert_eq!(WireMsg::from_stream_bytes(header, vec![1]).err(), Some(RecvError::NotEnoughBytes));
    let no_payload = MsgHeader::new(&[1], &[], &[]).unwrap().to_bytes();
    assert_eq!(WireMsg::from_stream_bytes(no_payload, vec![1]).err(), Some(RecvError::EmptyMsgPayload));
    assert!(matches!(MsgHeader::new(&[], &[], &[]), Ok(_)));
}

#[test]
fn wire_msg_display() {
    let msg = WireMsg((vec![1], vec![], (0..8).collect()));
    assert_eq!(msg.to_display_string(), "WireMsg([ [1] ] [ [] ] [ 00 01 02 03..04 05 06 07 ])");
}

#[test]
fn checksum_is_written_and_checked() {
    let data = with_hash(b"\0\0\0\0123456789".to_vec());
    // The IEEE CRC-32 of "123456789".
    assert_eq!(&data[..4], &[0xcb, 0xf4, 0x39, 0x26]);
    assert!(hash_correct(&data));
    let mut corrupted = data.clone();
    corrupted[5] ^= 1;
    assert!(!hash_correct(&corrupted));
}

#[test]
fn connection_id_is_the_sha3_digest_of_the_encoded_address() {
    let id = XorName::from_encoded_addr(&[]);
    let expected: [u8; 32] = [
        0xa7, 0xff, 0xc6, 0xf8, 0xbf, 0x1e, 0xd7, 0x66, 0x51, 0xc1, 0x47, 0x56, 0xa0, 0x61, 0xd6,
        0x62, 0xf5, 0x80, 0xff, 0x4d, 0xe4, 0x3b, 0x49, 0xfa, 0x82, 0xd8, 0x0a, 0x4b, 0x80, 0xf8,
        0x43, 0x4a,
    ];
    assert_eq!(id.0, expected);
    assert_ne!(XorName::from_encoded_addr(&[1]).0, expected);
}

#[test]
fn pool_finds_and_removes_by_address() {
    let mut pool: ConnectionPool<u32> = ConnectionPool::new();
    let a = addr(1000);
    let b = addr(1001);
    let r1 = pool.insert(XorName([1; 32]), a, 10);
    let _ = pool.insert(XorName([2; 32]), b, 20);
    let _ = pool.insert(XorName([3; 32]), a, 30);
    assert!(pool.has_addr(&a));
    assert!(pool.has_id(&XorName([2; 32])));
    let (conn, remover) = pool.get_by_addr(&a).unwrap();
    assert_eq!(conn, 10);
    assert_eq!(*remover.remote_addr(), a);
    assert_eq!(remover.id(), r1.id());
    assert_eq!(pool.get_by_id(&XorName([2; 32])).unwrap().0, 20);
    assert_eq!(pool.remove(&a), vec![10, 30]);
    assert!(!pool.has_addr(&a));
    assert!(pool.get_by_addr(&a).is_none());
    assert!(!pool.has_id(&XorName([1; 32])));
    assert!(!pool.has_id(&XorName([3; 32])));
    assert!(pool.get_by_id(&XorName([1; 32])).is_none());
    assert!(pool.has_addr(&b));
    assert!(pool.has_id(&XorName([2; 32])));
}

#[test]
fn id_gen_counts_up() {
    let mut gen = IdGen(0);
    assert_eq!(gen.next(), 0);
    assert_eq!(gen.next(), 1);
    let mut last = IdGen(u64::MAX);
    assert_eq!(last.next(), u64::MAX);
    assert_eq!(last.next(), 0);
}

#[test]
fn config_defaults_are_filled_in() {
    let c = InternalConfig::try_from_config(&Config::default()).unwrap();
    assert_eq!(c.idle_timeout_ms, DEFAULT_IDLE_TIMEOUT_MS);
    assert_eq!(c.idle_timeout_ms, 18_000);
    assert_eq!(c.upnp_lease_duration_ms, DEFAULT_UPNP_LEASE_DURATION_MS);
    assert_eq!(c.upnp_lease_duration_ms, 120_000);
    assert_eq!(c.keep_alive_interval_ms, None);
}

#[test]
fn config_with_too_long_idle_timeout_is_refused() {
    let config = Config { idle_timeout_ms: Some(1 << 62), ..Config::default() };
    assert_eq!(InternalConfig::try_from_config(&config), Err(ConfigError::InvalidIdleTimeout));
    let config = Config { idle_timeout_ms: Some((1 << 62) - 1), upnp_lease_duration_ms: Some(5), ..Config::default() };
    let c = InternalConfig::try_from_config(&config).unwrap();
    assert_eq!(c.idle_timeout_ms, (1 << 62) - 1);
    assert_eq!(c.upnp_lease_duration_ms, 5);
}

#[test]
fn lease_is_capped_at_u32_max_seconds() {
    assert_eq!(lease_secs(120_000), 120);
    assert_eq!(lease_secs(1_999), 1);
    assert_eq!(lease_secs(u64::MAX), u32::MAX);
}

#[test]
fn millis_are_parsed() {
    assert_eq!(parse_millis("1500"), Ok(1500));
    assert_eq!(parse_millis("+7"), Ok(7));
    assert_eq!(parse_millis("18446744073709551615"), Ok(u64::MAX));
    assert_eq!(parse_millis(""), Err(ParseMillisError::Empty));
    assert_eq!(parse_millis("+"), Err(ParseMillisError::InvalidDigit));
    assert_eq!(parse_millis("-1"), Err(ParseMillisError::InvalidDigit));
    assert_eq!(parse_millis("12a"), Err(ParseMillisError::InvalidDigit));
    assert_eq!(parse_millis("18446744073709551616"), Err(ParseMillisError::PosOverflow));
}

struct Schedule(Vec<u64>);

impl Backoff for Schedule {
    fn next_backoff(&mut self) -> Option<u64> {
        if self.0.is_empty() {
            None
        } else {
            Some(self.0.remove(0))
        }
    }
}

#[test]
fn backoff_retries_transient_errors_until_exhausted() {
    let mut schedule = Schedule(vec![10, 20]);
    let mut backoff = BackoffRef::new(&mut schedule);
    assert_eq!(backoff.next_step::<u8, &str>(Err(RetryError::Transient("a"))), RetryStep::RetryAfter(10));
    assert_eq!(backoff.next_step::<u8, &str>(Err(RetryError::Transient("b"))), RetryStep::RetryAfter(20));
    assert_eq!(backoff.next_step::<u8, &str>(Err(RetryError::Transient("c"))), RetryStep::Done(Err("c")));
    assert_eq!(backoff.next_step::<u8, &str>(Err(RetryError::Permanent("d"))), RetryStep::Done(Err("d")));
    assert_eq!(backoff.next_step::<u8, &str>(Ok(3)), RetryStep::Done(Ok(3)));
}

#[test]
fn borrowed_schedule_carries_on_after_the_wrapper() {
    let mut schedule = Schedule(vec![10, 20, 30]);
    {
        let mut backoff = BackoffRef::new(&mut schedule);
        assert_eq!(backoff.next_step::<u8, &str>(Err(RetryError::Transient("a"))), RetryStep::RetryAfter(10));
        assert_eq!(backoff.next_backoff(), Some(20));
    }
    assert_eq!(schedule.next_backoff(), Some(30));
    assert_eq!(schedule.next_backoff(), None);
}

#[test]
fn event_loop_messages() {
    let msg = EventLoopMsg::new(|| ());
    assert_eq!(msg.debug_text(), "EventLoopMsg with some inner");
    assert!(!msg.is_terminator());
    assert!(msg.into_task().is_some());
    let stop: EventLoopMsg<fn()> = EventLoopMsg::terminator();
    assert_eq!(stop.debug_text(), "EventLoopMsg with no inner");
    assert!(stop.is_terminator());
    assert!(stop.into_task().is_none());
}

#[test]
fn override_dir_is_the_given_path() {
    let o = OverRide::new("/tmp/qp2p");
    assert_eq!(o.path(), "/tmp/qp2p");
}

#[test]
fn bi_stream_messages_are_handled() {
    let peer = addr(2000);
    assert!(matches!(bi_stream_step(peer, Some(StreamMsg::UserMsg(vec![1]))), BiStep::Deliver(b) if b == vec![1]));
    assert!(matches!(bi_stream_step(peer, Some(StreamMsg::EndpointEchoReq)), BiStep::ReplyEcho(a) if a == peer));
    assert!(matches!(
        bi_stream_step(peer, Some(StreamMsg::EndpointVerificationReq(addr(2001)))),
        BiStep::Verify(a) if a == addr(2001)
    ));
    assert!(matches!(bi_stream_step(peer, Some(StreamMsg::EndpointVerificationResp(true))), BiStep::Skip));
    assert!(matches!(bi_stream_step(peer, None), BiStep::EndStream));
    assert!(matches!(echo_reply(peer), StreamMsg::EndpointEchoResp(a) if a == peer));
}

#[test]
fn uni_stream_messages_are_handled() {
    assert!(matches!(uni_stream_step(Some(StreamMsg::UserMsg(vec![2]))), UniStep::Deliver(b) if b == vec![2]));
    assert!(matches!(uni_stream_step(Some(StreamMsg::EndpointEchoReq)), UniStep::Skip));
    assert!(matches!(uni_stream_step(None), UniStep::EndStream));
}

#[test]
fn verification_needs_an_echo_response() {
    assert!(matches!(
        verification_reply(Some(StreamMsg::EndpointEchoResp(addr(1)))),
        StreamMsg::EndpointVerificationResp(true)
    ));
    assert!(matches!(verification_reply(Some(StreamMsg::EndpointEchoReq)), StreamMsg::EndpointVerificationResp(false)));
    assert!(matches!(verification_reply(None), StreamMsg::EndpointVerificationResp(false)));
}

#[test]
fn connect_to_any_takes_the_first_success() {
    assert!(ConnectAny::start(0).is_none());
    let mut any = ConnectAny::start(3).unwrap();
    assert!(matches!(any.on_result::<u8, ()>(Err(())), AnyStep::Wait));
    assert!(matches!(any.on_result::<u8, ()>(Ok(7)), AnyStep::Done(Some(7))));
    let mut all_fail = ConnectAny::start(2).unwrap();
    assert!(matches!(all_fail.on_result::<u8, ()>(Err(())), AnyStep::Wait));
    assert!(matches!(all_fail.on_result::<u8, ()>(Err(())), AnyStep::Done(None)));
}

#[test]
fn connection_errors_map() {
    assert_eq!(ConnectionError::from_connect_error(ConnectErrorKind::EndpointStopping), ConnectionError::Stopped);
    assert_eq!(
        ConnectionError::from_connect_error(ConnectErrorKind::InvalidRemoteAddress(addr(3))),
        ConnectionError::InvalidAddress(addr(3))
    );
    assert_eq!(
        ConnectionError::from_connect_error(ConnectErrorKind::InvalidDnsName),
        ConnectionError::InternalConfigError(InternalConfigError(ConnectErrorKind::InvalidDnsName))
    );
    assert_eq!(SendError::finish_outcome(Ok(())), Ok(()));
}

#[test]
fn our_type_is_parsed_ignoring_case() {
    assert_eq!(OurType::parse_name("Client"), Ok(OurType::Client));
    assert_eq!(OurType::parse_name("NODE"), Ok(OurType::Node));
    assert_eq!(OurType::parse_name("Other"), Err(String::from("Unknown client type: other")));
    assert_eq!("node".parse::<OurType>(), Ok(OurType::Node));
    assert_eq!(OurType::default(), OurType::Node);
}

#[test]
fn peers_keep_type_and_address() {
    let p = Peer::new(OurType::Client, addr(5));
    assert_eq!(p, Peer::Client(addr(5)));
    assert_eq!(p.peer_addr(), addr(5));
    assert!(!p.is_node());
    assert!(Peer::new(OurType::Node, addr(6)).is_node());
}

#[test]
fn hard_coded_contacts_are_kept_once() {
    let c = MockConfig::node().with_hard_coded_contacts(vec![addr(1), addr(2), addr(1)]);
    assert_eq!(c.hard_coded_contacts, vec![addr(1), addr(2)]);
    let c = MockConfig::client().with_hard_coded_contact(addr(9));
    assert_eq!(c.hard_coded_contacts, vec![addr(9)]);
    assert_eq!(c.our_type, OurType::Client);
}

#[test]
fn test_dir_names_hold_the_number_in_hex() {
    assert_eq!(test_dir_name(0x0123_4567_89ab_cdef), "qp2p_tests_0123456789abcdef");
    assert_eq!(test_dir_name(0), "qp2p_tests_0000000000000000");
    assert_eq!(test_dir_name(u64::MAX), "qp2p_tests_ffffffffffffffff");
}

#[test]
fn closing_gives_a_default_reason() {
    assert_eq!(close_reason(None), "The connection was closed intentionally by qp2p.");
    assert_eq!(close_reason(Some(String::from("bye"))), "bye");
}

#[test]
fn connection_attempts_are_deduplicated() {
    let mut dedup = ConnectionDeduplicator::new();
    let a = addr(4000);
    let b = addr(4001);
    assert_eq!(dedup.query(&a), DedupHandle::New(0));
    assert_eq!(dedup.query(&a), DedupHandle::Dup(0));
    assert_eq!(dedup.query(&b), DedupHandle::New(1));
    assert!(!dedup.complete(&a, 1));
    assert_eq!(dedup.query(&a), DedupHandle::Dup(0));
    assert!(dedup.complete(&a, 0));
    assert_eq!(dedup.query(&a), DedupHandle::New(2));
}

#[test]
fn cancellation() {
    let mut dedup = ConnectionDeduplicator::new();
    let a = addr(4002);
    let first = dedup.query(&a);
    assert_eq!(first, DedupHandle::New(0));
    // A second attempt waits for the first.
    assert_eq!(dedup.query(&a), DedupHandle::Dup(0));
    // The first is dropped before it ends: the waiting attempt asks again and goes on its own.
    dedup.abandon(&a, 0);
    assert_eq!(dedup.query(&a), DedupHandle::New(1));
    // Abandoning a stale attempt leaves the running one alone.
    dedup.abandon(&a, 0);
    assert_eq!(dedup.query(&a), DedupHandle::Dup(1));
}

#[test]
fn a_pooled_connection_is_reused_before_any_attempt() {
    let mut pool: ConnectionPool<u32> = ConnectionPool::new();
    let mut dedup = ConnectionDeduplicator::new();
    let a = addr(4003);
    assert!(matches!(connect_step(&pool, &mut dedup, &a), ConnectStep::Start(0)));
    assert!(matches!(connect_step(&pool, &mut dedup, &a), ConnectStep::Wait(0)));
    let _ = pool.insert(XorName([9; 32]), a, 90);
    assert!(dedup.complete(&a, 0));
    assert!(matches!(connect_step(&pool, &mut dedup, &a), ConnectStep::Pooled(90)));
    assert_eq!(dedup.query(&a), DedupHandle::New(1));
}

#[test]
fn failed_operations_drop_the_pooled_connection() {
    let mut pool: ConnectionPool<u32> = ConnectionPool::new();
    let a = addr(1100);
    let remover = pool.insert(XorName([7; 32]), a, 70);
    assert_eq!(pool.handle_error::<u8, ()>(&remover, Ok(1)), Ok(1));
    assert!(pool.has_addr(&a));
    assert_eq!(pool.handle_recv_result::<u8>(&remover, Err(RecvError::NotEnoughBytes)), Err(RecvError::NotEnoughBytes));
    assert!(pool.has_addr(&a));
    assert_eq!(
        pool.handle_recv_result::<u8>(&remover, Err(RecvError::ConnectionLost(ConnectionError::TimedOut))),
        Err(RecvError::ConnectionLost(ConnectionError::TimedOut))
    );
    assert!(!pool.has_addr(&a));
    assert!(!pool.has_id(&XorName([7; 32])));
    let b = addr(1101);
    let remover = pool.insert(XorName([8; 32]), b, 80);
    assert_eq!(pool.handle_error::<u8, &str>(&remover, Err("x")), Err("x"));
    assert!(!pool.has_addr(&b));
}
