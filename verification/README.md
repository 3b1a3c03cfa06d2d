# Phantun

A tunnel that carries UDP datagrams over TCP. Each UDP connection uses one TCP
stream, or several that share its packets in turn, which can improve throughput
on multi-core systems. The streams of one connection announce themselves with a
common identifier; the server groups them by it, and all streams of a group share
one UDP socket, so that the remote UDP server sees a single source address.

- `src/` is the library: the handshake packet (`protocol`), stream identifiers
  (`stream_id`), the opening of a connection (`dial`), load balancing
  (`multi_stream`), what the server does with a new connection (`admission`) and
  how it groups streams (`stream_group`), the workers and monitors of a connection
  (`relay`), the table of UDP clients (`connections`), addresses (`addr`) and
  settings (`config`). `laws` says how the two ends fit together. All of it is
  verified with Verus, except for the bodies of four small wrappers, whose
  contracts are trusted: `uuid_new_v4`, `uuid_from_bytes` and `uuid_as_bytes` in
  `stream_id`, which call the `uuid` crate, and `parse_usize` in `config`, which
  calls the parser of the standard library.
- `app/` is the program around it: arguments, sockets, the Tun interface and tasks.
- `tests/` runs the library on examples.
