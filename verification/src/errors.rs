//! Errors of endpoints, connections and streams, and how the transport's own failures map
//! onto them.

use crate::addr::SocketAddr;
use crate::config::CertificateGenerationError;
use vstd::prelude::*;

verus! {

/// Problems with a configuration.
#[derive(Debug, Clone, PartialEq, Eq)]
pub enum ConfigError {
    /// An error occurred when generating the TLS certificate.
    CertificateGeneration(CertificateGenerationError),
    /// The idle timeout does not fit the transport's variable-length integer.
    InvalidIdleTimeout,
    /// An error occurred within the TLS library.
    Rustls(String),
    /// The generated certificate could not be added to the root store.
    Webpki,
}

/// Errors returned when creating an endpoint.
#[derive(Debug, Clone, PartialEq, Eq)]
pub enum EndpointError {
    /// There was a problem with the provided configuration.
    Config(ConfigError),
    /// Failed to bind the UDP socket.
    Socket(String),
    /// An I/O error.
    IoError(String),
}

/// Errors returned when creating a client endpoint.
#[derive(Debug, Clone, PartialEq, Eq)]
pub enum ClientEndpointError {
    /// There was a problem with the provided configuration.
    Config(ConfigError),
    /// Failed to bind the UDP socket.
    Socket(String),
    /// An I/O error.
    Io(String),
}

/// The ways in which the transport can refuse to start a connection.
#[derive(Debug, Clone, Copy, PartialEq, Eq)]
pub enum ConnectErrorKind {
    /// The endpoint is shutting down.
    EndpointStopping,
    /// The connection-ID space of the endpoint is exhausted.
    TooManyConnections,
    /// The server name is not a valid DNS name.
    InvalidDnsName,
    /// The remote address cannot be connected to.
    InvalidRemoteAddress(SocketAddr),
    /// No default client configuration was set.
    NoDefaultClientConfig,
    /// The QUIC version is not supported.
    UnsupportedVersion,
}

/// An internal configuration error met when connecting: one of the transport's refusals that
/// can only come from a misconfiguration of this library.
#[derive(Debug, Clone, Copy, PartialEq, Eq)]
pub struct InternalConfigError(pub ConnectErrorKind);

/// An opaque error code indicating a transport failure.
#[derive(Debug, Clone, Copy, PartialEq, Eq)]
pub struct TransportErrorCode(pub u64);

/// A violation of the QUIC specification by the peer, as the transport reported it.
#[derive(Debug, Clone, PartialEq, Eq)]
pub struct TransportError {
    /// The error code.
    pub code: TransportErrorCode,
    /// The human-readable reason.
    pub reason: String,
}

/// The reason a connection was closed.
#[allow(inconsistent_fields)]
#[derive(Debug, Clone, PartialEq, Eq)]
pub enum Close {
    /// This application closed the connection.
    Local,
    /// The remote application closed the connection.
    Application {
        /// The error code supplied by the application.
        error_code: u64,
        /// The reason supplied by the application.
        reason: Vec<u8>,
    },
    /// The transport layer closed the connection.
    Transport {
        /// The error code supplied by the QUIC library.
        error_code: TransportErrorCode,
        /// The reason supplied by the QUIC library.
        reason: Vec<u8>,
    },
}

/// The ways in which the transport reports the loss of a connection.
#[allow(inconsistent_fields)]
#[derive(Debug, Clone, PartialEq, Eq)]
pub enum TransportConnectionError {
    /// The local application closed the connection.
    LocallyClosed,
    /// The peer's application closed the connection.
    ApplicationClosed {
        /// The application's error code.
        error_code: u64,
        /// The application's reason.
        reason: Vec<u8>,
    },
    /// The peer's transport closed the connection.
    ConnectionClosed {
        /// The transport's error code.
        error_code: TransportErrorCode,
        /// The transport's reason.
        reason: Vec<u8>,
    },
    /// The peer does not implement a supported version.
    VersionMismatch,
    /// The peer violated the QUIC specification.
    TransportError(TransportError),
    /// The peer is unable to continue processing this connection.
    Reset,
    /// The idle timeout lapsed.
    TimedOut,
}

/// Errors that can cause connection loss.
#[derive(Debug, Clone, PartialEq, Eq)]
pub enum ConnectionError {
    /// The endpoint has been stopped.
    Stopped,
    /// The number of active connections on the local endpoint is at the limit.
    TooManyConnections,
    /// Invalid remote address.
    InvalidAddress(SocketAddr),
    /// Internal configuration error.
    InternalConfigError(InternalConfigError),
    /// The peer doesn't implement the supported version.
    VersionMismatch,
    /// The peer violated the QUIC specification as understood by this implementation.
    TransportError(TransportError),
    /// The peer is unable to continue processing this connection, usually due to having restarted.
    Reset,
    /// Communication with the peer has lapsed for longer than the negotiated idle timeout.
    TimedOut,
    /// The connection was closed.
    Closed(Close),
}

/// An error caused by an unsupported operation, with its description.
#[derive(Debug, Clone, PartialEq, Eq)]
pub struct UnsupportedStreamOperation(pub String);

/// Errors that can occur when interacting with streams.
#[derive(Debug, Clone, PartialEq, Eq)]
pub enum StreamError {
    /// The peer abandoned the stream.
    Stopped(u64),
    /// The stream was already stopped, finished, or reset.
    Gone,
    /// An error was caused by an unsupported operation.
    Unsupported(UnsupportedStreamOperation),
}

/// Errors that can occur when sending messages.
#[derive(Debug, Clone, PartialEq, Eq)]
pub enum SendError {
    /// The serialised message is too long.
    MessageTooLong(usize),
    /// Failed to serialize the message.
    Serialization(String),
    /// Connection was lost when trying to send a message.
    ConnectionLost(ConnectionError),
    /// Stream was lost when trying to send a message.
    StreamLost(StreamError),
}

/// Errors that can occur when receiving messages.
#[derive(Debug, Clone, PartialEq, Eq)]
pub enum RecvError {
    /// Message received has an empty payload.
    EmptyMsgPayload,
    /// Not enough bytes were received to be a valid message.
    NotEnoughBytes,
    /// Failed to deserialize the message.
    Serialization(String),
    /// Message type flag found in the message header is invalid.
    InvalidMsgTypeFlag(u8),
    /// Type of message received is unexpected.
    UnexpectedMsgReceived(String),
    /// Connection was lost when trying to receive a message.
    ConnectionLost(ConnectionError),
    /// Stream was lost when trying to receive a message.
    StreamLost(StreamError),
}

/// Errors that can occur when performing an RPC operation.
#[derive(Debug, Clone, PartialEq, Eq)]
pub enum RpcError {
    /// We did not receive a response within the expected time.
    TimedOut,
    /// Failed to send the request.
    Send(SendError),
    /// Failed to receive the response.
    Recv(RecvError),
}


/// The ways in which the transport reports a failed write.
#[derive(Debug, Clone, PartialEq, Eq)]
pub enum WriteErrorKind {
    /// The peer stopped the stream with the given code.
    Stopped(u64),
    /// The connection was lost.
    ConnectionLost(TransportConnectionError),
    /// The stream is already finished or reset.
    UnknownStream,
    /// 0-RTT data was rejected; with the transport's description.
    ZeroRttRejected(String),
}

/// The ways in which the transport reports a failed read.
#[derive(Debug, Clone, PartialEq, Eq)]
pub enum ReadErrorKind {
    /// The peer reset the stream with the given code.
    Reset(u64),
    /// The connection was lost.
    ConnectionLost(TransportConnectionError),
    /// The stream is already finished or reset.
    UnknownStream,
    /// An ordered read followed an unordered one; with the transport's description.
    IllegalOrderedRead(String),
    /// 0-RTT data was rejected; with the transport's description.
    ZeroRttRejected(String),
}

/// The ways in which the transport reports a failed exact read.
#[derive(Debug, Clone, PartialEq, Eq)]
pub enum ReadExactErrorKind {
    /// The stream finished before the buffer was filled.
    FinishedEarly,
    /// A read failed.
    ReadError(ReadErrorKind),
}

/// The connection error for a refused connection attempt.
pub open spec fn connect_error(e: ConnectErrorKind) -> ConnectionError {
    match e {
        ConnectErrorKind::EndpointStopping => ConnectionError::Stopped,
        ConnectErrorKind::TooManyConnections => ConnectionError::TooManyConnections,
        ConnectErrorKind::InvalidRemoteAddress(addr) => ConnectionError::InvalidAddress(addr),
        _ => ConnectionError::InternalConfigError(InternalConfigError(e)),
    }
}

/// The connection error for a lost connection: closes are told apart from other losses.
pub open spec fn lost_connection_error(e: TransportConnectionError) -> ConnectionError {
    match e {
        TransportConnectionError::LocallyClosed => ConnectionError::Closed(Close::Local),
        TransportConnectionError::ApplicationClosed { error_code, reason } => ConnectionError::Closed(
            Close::Application { error_code, reason },
        ),
        TransportConnectionError::ConnectionClosed { error_code, reason } => ConnectionError::Closed(
            Close::Transport { error_code, reason },
        ),
        TransportConnectionError::VersionMismatch => ConnectionError::VersionMismatch,
        TransportConnectionError::TransportError(t) => ConnectionError::TransportError(t),
        TransportConnectionError::Reset => ConnectionError::Reset,
        TransportConnectionError::TimedOut => ConnectionError::TimedOut,
    }
}

/// The receive error for a failed read.
pub open spec fn read_error(e: ReadErrorKind) -> RecvError {
    match e {
        ReadErrorKind::Reset(code) => RecvError::StreamLost(StreamError::Stopped(code)),
        ReadErrorKind::ConnectionLost(c) => RecvError::ConnectionLost(lost_connection_error(c)),
        ReadErrorKind::UnknownStream => RecvError::StreamLost(StreamError::Gone),
        ReadErrorKind::IllegalOrderedRead(d) => RecvError::StreamLost(
            StreamError::Unsupported(UnsupportedStreamOperation(d)),
        ),
        ReadErrorKind::ZeroRttRejected(d) => RecvError::StreamLost(
            StreamError::Unsupported(UnsupportedStreamOperation(d)),
        ),
    }
}

impl ConnectionError {
    /// The error for a connection attempt that the transport refused. Refusals that can only
    /// come from a misconfiguration of this library are internal configuration errors.
    pub fn from_connect_error(e: ConnectErrorKind) -> (r: ConnectionError)
        ensures
            r == connect_error(e),
    {
        match e {
            ConnectErrorKind::EndpointStopping => ConnectionError::Stopped,
            ConnectErrorKind::TooManyConnections => ConnectionError::TooManyConnections,
            ConnectErrorKind::InvalidRemoteAddress(addr) => ConnectionError::InvalidAddress(addr),
            ConnectErrorKind::InvalidDnsName | ConnectErrorKind::NoDefaultClientConfig
            | ConnectErrorKind::UnsupportedVersion => {
                ConnectionError::InternalConfigError(InternalConfigError(e))
            },
        }
    }

    /// The error for a connection the transport lost.
    pub fn from_lost_connection(e: TransportConnectionError) -> (r: ConnectionError)
        ensures
            r == lost_connection_error(e),
    {
        match e {
            TransportConnectionError::LocallyClosed => ConnectionError::Closed(Close::Local),
            TransportConnectionError::ApplicationClosed { error_code, reason } => {
                ConnectionError::Closed(Close::Application { error_code, reason })
            },
            TransportConnectionError::ConnectionClosed { error_code, reason } => {
                ConnectionError::Closed(Close::Transport { error_code, reason })
            },
            TransportConnectionError::VersionMismatch => ConnectionError::VersionMismatch,
            TransportConnectionError::TransportError(t) => ConnectionError::TransportError(t),
            TransportConnectionError::Reset => ConnectionError::Reset,
            TransportConnectionError::TimedOut => ConnectionError::TimedOut,
        }
    }
}

impl SendError {
    /// The error for a connection lost while sending.
    pub fn from_lost_connection(e: TransportConnectionError) -> (r: SendError)
        ensures
            r == SendError::ConnectionLost(lost_connection_error(e)),
    {
        SendError::ConnectionLost(ConnectionError::from_lost_connection(e))
    }

    /// The error for a failed write.
    pub fn from_write_error(e: WriteErrorKind) -> (r: SendError)
        ensures
            r == match e {
                WriteErrorKind::Stopped(code) => SendError::StreamLost(StreamError::Stopped(code)),
                WriteErrorKind::ConnectionLost(c) => SendError::ConnectionLost(lost_connection_error(c)),
                WriteErrorKind::UnknownStream => SendError::StreamLost(StreamError::Gone),
                WriteErrorKind::ZeroRttRejected(d) => SendError::StreamLost(
                    StreamError::Unsupported(UnsupportedStreamOperation(d)),
                ),
            },
    {
        match e {
            WriteErrorKind::Stopped(code) => SendError::StreamLost(StreamError::Stopped(code)),
            WriteErrorKind::ConnectionLost(c) => SendError::ConnectionLost(
                ConnectionError::from_lost_connection(c),
            ),
            WriteErrorKind::UnknownStream => SendError::StreamLost(StreamError::Gone),
            WriteErrorKind::ZeroRttRejected(d) => SendError::StreamLost(
                StreamError::Unsupported(UnsupportedStreamOperation(d)),
            ),
        }
    }

    /// The outcome of finishing a stream after a send: a stream that the peer already stopped
    /// counts as finished.
    pub fn finish_outcome(r: Result<(), SendError>) -> (o: Result<(), SendError>)
        ensures
            o == match r {
                Err(SendError::StreamLost(StreamError::Stopped(_))) => Ok(()),
                _ => r,
            },
    {
        match r {
            Err(SendError::StreamLost(StreamError::Stopped(_))) => Ok(()),
            _ => r,
        }
    }
}

impl RecvError {
    /// The error for a connection lost while receiving.
    pub fn from_lost_connection(e: TransportConnectionError) -> (r: RecvError)
        ensures
            r == RecvError::ConnectionLost(lost_connection_error(e)),
    {
        RecvError::ConnectionLost(ConnectionError::from_lost_connection(e))
    }

    /// The error for a failed read.
    pub fn from_read_error(e: ReadErrorKind) -> (r: RecvError)
        ensures
            r == read_error(e),
    {
        match e {
            ReadErrorKind::Reset(code) => RecvError::StreamLost(StreamError::Stopped(code)),
            ReadErrorKind::ConnectionLost(c) => RecvError::ConnectionLost(
                ConnectionError::from_lost_connection(c),
            ),
            ReadErrorKind::UnknownStream => RecvError::StreamLost(StreamError::Gone),
            ReadErrorKind::IllegalOrderedRead(d) => RecvError::StreamLost(
                StreamError::Unsupported(UnsupportedStreamOperation(d)),
            ),
            ReadErrorKind::ZeroRttRejected(d) => RecvError::StreamLost(
                StreamError::Unsupported(UnsupportedStreamOperation(d)),
            ),
        }
    }

    /// The error for a failed exact read: a stream that ended early held too few bytes.
    pub fn from_read_exact_error(e: ReadExactErrorKind) -> (r: RecvError)
        ensures
            r == match e {
                ReadExactErrorKind::FinishedEarly => RecvError::NotEnoughBytes,
                ReadExactErrorKind::ReadError(k) => read_error(k),
            },
    {
        match e {
            ReadExactErrorKind::FinishedEarly => RecvError::NotEnoughBytes,
            ReadExactErrorKind::ReadError(k) => RecvError::from_read_error(k),
        }
    }

    /// Whether this error means the connection is gone (and should leave the pool).
    pub fn is_connection_lost(&self) -> (r: bool)
        ensures
            r == (*self is ConnectionLost),
    {
        match self {
            RecvError::ConnectionLost(_) => true,
            _ => false,
        }
    }
}

impl RpcError {
    /// A connection error met while establishing a connection before sending counts as a
    /// failed send.
    pub fn from_connection_error(e: ConnectionError) -> (r: RpcError)
        ensures
            r == RpcError::Send(SendError::ConnectionLost(e)),
    {
        RpcError::Send(SendError::ConnectionLost(e))
    }

    /// A connection lost during an RPC counts as a failed send.
    pub fn from_lost_connection(e: TransportConnectionError) -> (r: RpcError)
        ensures
            r == RpcError::Send(SendError::ConnectionLost(lost_connection_error(e))),
    {
        RpcError::Send(SendError::from_lost_connection(e))
    }
}

/// Closing-related losses are reported as closes, and only they.
pub proof fn law_close_iff_closed(e: TransportConnectionError)
    ensures
        (lost_connection_error(e) is Closed) <==> (e is LocallyClosed || e is ApplicationClosed
            || e is ConnectionClosed),
{
}

} // verus!
