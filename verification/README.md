# occams_rpc

An RPC framework for high throughput. Each connection is a full-duplex, multiplexed stream: every
request has an ID, and the response that carries the same ID goes to the task that sent it.

- `src/` is the library, verified with Verus: the protocol, the tasks of clients and servers, what
  the sender and the receiver of a connection, the workers of a pool, a failover pool, and the
  reader and the writer of a server connection do, and the rules by which task types are declared.
- `tests/` runs the library.
- `app/` is the rest, on the tokio runtime: sockets, timers, channels, and the code that
  declarations of task types stand for.

## How the library is used

What has to be read, written or waited for is said by what the functions of the library return;
`app/` does it and hands back what came of it.

Traits like `Codec`, `ClientTask` and `ServerTaskEncode` are for users to implement. Their spec
functions say what a value means, and the contracts of their methods are stated over those. An
implementation in ordinary Rust leaves the spec functions out.

## Protocol

See `src/proto.rs`.
