# file_blockchain

A decentralised file-hosting blockchain. Files are stored on the chain as
`data:` URLs; storing one costs one nano-token per byte (one token per
gigabyte), paid to the network's pool, which is shared among the nodes at each
withdrawal. Blocks are hashed with SHA-256 over their index, the previous hash
and the JSON text of their payload, and spread between nodes over websockets.

## Layout

- `src/` is the library, verified with Verus.
  - `blockchain/`: blocks, records, withdrawals, the chain and its checks
    (`blockchain.rs` holds the chain's operations and the laws proved of them),
    and the JSON text in which blocks are hashed and compared.
  - `http_server.rs`: routing of HTTP requests, reading of their bodies and of
    numbers, and the responses the node writes.
  - `requests.rs`: what the node answers to each request and what the request
    changes in the chain.
  - `text.rs`: decimal and hexadecimal notation and text search.
  - `primitives/`: the calls into outside crates (SHA-256, Ed25519, Base64,
    JSON strings, MIME detection, the clock), each with the contract that the
    library relies on.
  - `util/`, `gui/`: collection periods, the withdrawal schedule, and small
    shared types.
- `app/` is the node program: sockets, threads, the window, and the requests to
  the network's middleware.
- `tests/` runs the library on concrete values.
