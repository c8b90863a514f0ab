# qp2p

Peer-to-peer messaging over QUIC. The library under `src/` holds the logic, verified with
Verus; `app/` holds what performs I/O around it.

- `wire_msg`: the framing of messages on streams (a 16-byte header, then header, destination
  and payload bytes), with the laws that decoding undoes encoding and back.
- `context`, `conn_state`, `event`: the connection context as a state machine. Each operation
  (connecting, a connection made or failed, a message or a peer arriving, a timeout,
  bootstrapping) changes the context and returns the actions to perform. `context_laws` states
  what holds across operations.
- `bootstrap_cache`, `connection_pool`, `connection_deduplicator`, `key_map`: the collections
  behind the context and the endpoint.
- `mock`: the nodes of a simulated network, each a state machine over packets.
- `msg_frame`: the flag byte that ends each message between peers.
- `streams`, `errors`, `config`, `backoff`, `checksum`, `conn_id`, `utils`, `dirs`,
  `event_loop`, `peer`, `addr`: the smaller rules.
- `app/`: addresses of the standard library, the bootstrap cache on disk, messages on quinn
  streams, the driver that runs the context over quinn, the endpoint's pooled connections, and the
  simulated network.
