# matchbox_socket

The logic of a WebRTC socket: full-mesh, peer-to-peer data channels between the members of a room
that a signaling server keeps. The logic is executable Rust, proved by [Verus] to do what its
contracts say.

- `src/` is the library. It performs no I/O: it is told what happened on the network, passes on what
  is to be passed on, and says what to do next. `src/lib.rs` has an overview of the modules. The
  queues are those of `futures-channel`, and the lock around the table of data channels is that of
  `parking_lot`; what is taken for granted of them is stated, and explained, on the few functions of
  `src/channel.rs` and `src/table_lock.rs` that call them. The lock around a peer is vstd's.
- `app/` has the tasks that wait: for timers, queues, the signaling server and handshakes.
- `tests/` runs the library.

The properties that span more than one call stand as proof functions:

- `src/conversation.rs`, `src/handler_laws.rs`: what is reported of a peer is one join, then packets
  in order, then at most one close, whichever of its data channels the events come from.
- `src/signaling.rs`, `src/loop_laws.rs`: requests, events, signals, packets and peer states are
  passed on once and in order, to the handshake or channel that they are meant for.
- `src/table_laws.rs`, `src/stream_laws.rs`: the peers that can be written to are those that were
  observed to connect, a data channel can be taken once, and what is taken from the socket no longer
  goes through it.

[Verus]: https://github.com/verus-lang/verus
