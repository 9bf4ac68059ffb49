# rdows

RDMA semantics over WebSocket transport, with a verified core.

`src/` holds the protocol's decisions as functions from state and event to next
state and frames. Their contracts are proved with Verus.

| Module | What it holds |
|--------|---------------|
| `opcode`, `frame`, `memory`, `queue`, `message` | what the two sides say to each other |
| `error` | wire error codes and the errors of the library |
| `connection`, `subprotocol`, `tls`, `random` | opening a session |
| `client` | the client's end: verbs, completion queue, credits, sequence numbers |
| `completion` | the completion queue |
| `server` | the server's end: session, posted receives, memory regions |
| `kv` | a key-value store in one remote memory region |
| `args` | command-line arguments |
| `buffer`, `text` | bytes and texts |
| `laws` | what holds of a client and a server that talk to each other |

Each of `client`, `server` and `kv` has a module `laws` of its own with what
holds across several calls.

A verb that waits for the remote side comes in two halves: one gives the frames
to send, the other takes the reply. Sockets, TLS streams and event loops stand in
`app/`, which is generic over the byte codec of the frames.
