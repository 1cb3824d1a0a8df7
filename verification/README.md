# mcmpquic

The decisions of a multipath QUIC client and server that serve each path of a
connection in a thread of its own, verified with Verus.

`src/` is the library. It holds no sockets and no QUIC stack. Each loop of the
client and the server is a state machine: its state holds the request that is to
be carried out next, and `advance` takes the reply. `machine` says what a run of
such a machine is, and the other modules prove what holds in every run.

- `addr`, `args`, `config`: addresses, arguments and connection settings
- `sockets`, `schedule`, `dump`, `random`: the sockets of a client, the order of
  its paths, the files of packet dumps, random identifiers
- `initiate`, `send_round`, `path_events`, `upkeep`: what the clients share
- `client`: the client of one thread
- `multicore_client`: the client of one thread for each path
- `multicore_client_new`: the client of one thread for the connection and one
  for each socket
- `listener`, `multicore_server`: retry tokens, new connections, and the thread
  of a path of the server
- `external`: calls into `quiche`, `ring`, `slab` and `itertools`, with what is
  claimed of them

`app/` runs the machines over UDP sockets. Of `quiche` the library needs what
reads headers and writes version negotiations and retries. The multipath
connections are given to `app/` as implementations of the traits in
`app/stack.rs`.
