//! What a connection does with each message read from its streams, and how a connection to any
//! of several peers is settled.

use crate::addr::SocketAddr;
use vstd::prelude::*;

verus! {

/// A message on the streams of a connection.
#[derive(Debug)]
pub enum StreamMsg {
    /// A user message.
    UserMsg(Vec<u8>),
    /// A request for the address we see the peer at.
    EndpointEchoReq,
    /// The address the peer sees us at.
    EndpointEchoResp(SocketAddr),
    /// A request to check that the peer can be reached at the given address.
    EndpointVerificationReq(SocketAddr),
    /// Whether the peer could be reached.
    EndpointVerificationResp(bool),
}

/// What to do with what was read from a bi-directional stream.
#[derive(Debug)]
pub enum BiStep {
    /// Hand the user message to the user.
    Deliver(Vec<u8>),
    /// Answer on the stream with the address we see the peer at.
    ReplyEcho(SocketAddr),
    /// Check whether the peer can be reached at the address, and answer on the stream.
    Verify(SocketAddr),
    /// Ignore the message, which has no business on this stream, and read on.
    Skip,
    /// Stop reading the stream: reading failed.
    EndStream,
}

/// What to do with what was read from a bi-directional stream of the peer at `peer_addr`;
/// `None` when reading failed.
pub fn bi_stream_step(peer_addr: SocketAddr, read: Option<StreamMsg>) -> (r: BiStep)
    ensures
        match read {
            None => r is EndStream,
            Some(StreamMsg::UserMsg(b)) => r == BiStep::Deliver(b),
            Some(StreamMsg::EndpointEchoReq) => r == BiStep::ReplyEcho(peer_addr),
            Some(StreamMsg::EndpointVerificationReq(a)) => r == BiStep::Verify(a),
            Some(_) => r is Skip,
        },
{
    match read {
        None => BiStep::EndStream,
        Some(StreamMsg::UserMsg(b)) => BiStep::Deliver(b),
        Some(StreamMsg::EndpointEchoReq) => BiStep::ReplyEcho(peer_addr),
        Some(StreamMsg::EndpointVerificationReq(a)) => BiStep::Verify(a),
        Some(_) => BiStep::Skip,
    }
}

/// What to do with what was read from a uni-directional stream.
#[derive(Debug)]
pub enum UniStep {
    /// Hand the user message to the user.
    Deliver(Vec<u8>),
    /// Ignore the message, which has no business on this stream, and read on.
    Skip,
    /// Stop reading the stream: reading failed.
    EndStream,
}

/// What to do with what was read from a uni-directional stream; `None` when reading failed.
pub fn uni_stream_step(read: Option<StreamMsg>) -> (r: UniStep)
    ensures
        match read {
            None => r is EndStream,
            Some(StreamMsg::UserMsg(b)) => r == UniStep::Deliver(b),
            Some(_) => r is Skip,
        },
{
    match read {
        None => UniStep::EndStream,
        Some(StreamMsg::UserMsg(b)) => UniStep::Deliver(b),
        Some(_) => UniStep::Skip,
    }
}

/// The answer to an echo request from the peer at `peer_addr`.
pub fn echo_reply(peer_addr: SocketAddr) -> (r: StreamMsg)
    ensures
        r == StreamMsg::EndpointEchoResp(peer_addr),
{
    StreamMsg::EndpointEchoResp(peer_addr)
}

/// The answer to a verification request, given what the address to verify answered to our echo
/// request in time (`None` if nothing, or reading failed): it is reachable if it answered with
/// an echo response.
pub fn verification_reply(echo_answer: Option<StreamMsg>) -> (r: StreamMsg)
    ensures
        r == StreamMsg::EndpointVerificationResp(echo_answer matches Some(StreamMsg::EndpointEchoResp(_))),
{
    let verified = match echo_answer {
        Some(StreamMsg::EndpointEchoResp(_)) => true,
        _ => false,
    };
    StreamMsg::EndpointVerificationResp(verified)
}

/// The reason given when closing a connection: the one asked for, or by default that the
/// connection was closed intentionally.
pub fn close_reason(reason: Option<String>) -> (r: String)
    ensures
        r@ == match reason {
            Some(s) => s@,
            None => "The connection was closed intentionally by qp2p."@,
        },
{
    match reason {
        Some(s) => s,
        None => String::from_str("The connection was closed intentionally by qp2p."),
    }
}

/// Where a connection to any of several peers stands.
#[derive(Debug)]
pub enum AnyStep<T> {
    /// Attempts are still running.
    Wait,
    /// Settled: the first connection made, or `None` once every attempt failed.
    Done(Option<T>),
}

/// Connecting to any of several peers at once: the first connection made wins.
#[derive(Debug)]
pub struct ConnectAny {
    pending: usize,
}

impl ConnectAny {
    /// The attempts still running.
    pub closed spec fn pending_view(&self) -> nat {
        self.pending as nat
    }

    /// Starts connecting to `n_peers` peers at once; with none, there is nothing to connect to.
    pub fn start(n_peers: usize) -> (r: Option<ConnectAny>)
        ensures
            n_peers == 0 <==> r is None,
            r matches Some(c) ==> c.pending_view() == n_peers,
    {
        if n_peers == 0 {
            None
        } else {
            Some(ConnectAny { pending: n_peers })
        }
    }

    /// The outcome of one attempt: the first success settles it; it is settled with nothing
    /// once every attempt failed.
    pub fn on_result<T, E>(&mut self, res: Result<T, E>) -> (r: AnyStep<T>)
        requires
            old(self).pending_view() > 0,
        ensures
            res matches Ok(t) ==> r == AnyStep::Done(Some(t)),
            res is Err ==> final(self).pending_view() == old(self).pending_view() - 1,
            res is Err ==> (r is Wait <==> final(self).pending_view() > 0),
            res is Err && final(self).pending_view() == 0 ==> r == AnyStep::<T>::Done(None),
    {
        match res {
            Ok(t) => AnyStep::Done(Some(t)),
            Err(_) => {
                self.pending = self.pending - 1;
                if self.pending == 0 {
                    AnyStep::Done(None)
                } else {
                    AnyStep::Wait
                }
            },
        }
    }
}

} // verus!
