//! qp2p: peer-to-peer messaging over QUIC, with the message framing, the connection
//! bookkeeping and the peer state machines written as verified code.

pub mod addr;
pub mod backoff;
pub mod key_map;
pub mod bootstrap_cache;
pub mod checksum;
pub mod config;
pub mod conn_id;
pub mod conn_state;
pub mod context;
pub mod context_laws;
pub mod dirs;
pub mod connection_deduplicator;
pub mod connection_pool;
pub mod errors;
pub mod event;
pub mod event_loop;
pub mod mock;
pub mod msg_frame;
pub mod peer;
pub mod streams;
pub mod utils;
pub mod wire_msg;
