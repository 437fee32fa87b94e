# saito

Blocks, transactions and the peer-message logic of a Saito node, written in
Verus and proved against their contracts.

- `src/block.rs`: `BlockCore` and `Block`, their views, constructors, getters
  and setters, and the laws of the setters.
- `src/transaction.rs`: a transaction in its network form.
- `src/mempool.rs`: what the mempool makes of an offered transaction.
- `src/crypto.rs`: hash, key and signature types and byte helpers.
- `src/networking/api.rs`: peer messages, command names and replies.
- `src/networking/socket.rs`: the decisions behind each peer command:
  the chain walk that answers `REQCHAIN`, the handshake checks, transaction
  propagation, and the action taken after each message.
- `app/`: serde forms of the library's types and the websocket plumbing
  (warp, tokio) that feeds peer messages to the library.
- `tests/`: tests of the library on concrete values.
