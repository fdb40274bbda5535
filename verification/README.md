# async_abci

An asynchronous ABCI (Application Blockchain Interface) server whose
decision logic is verified with Verus.

## Layout

- `src/` — the verified library:
  - `types.rs`: the ABCI request and response messages as plain data.
  - `error.rs`: the library's errors.
  - `state.rs`: `ConsensusQueue`, the state machine of the consensus
    connection (`InitChain`/`Flush` handshake, then per block `BeginBlock`,
    `Flush`, `DeliverTx`…, `EndBlock`, `Flush`, `Commit`, `Flush`), with
    laws on how a block is gathered.
  - `finalized.rs`: `RequestFinalizedBlock`, a whole block handed to the
    application at once, and `ResponseFinalizedBlock`.
  - `window.rs`: numbering of the requests of a pipelined window
    (`WindowReader`) and restoring request order among answers that arrive
    in any order (`ReorderBuffer`), with laws that answers are written in
    request order, the `Flush` answer last.
  - `dispatch.rs`: which application handler answers which request.
  - `frame.rs`: where the next length-prefixed (LEB128 varint) message of
    a byte buffer stands.
  - `session.rs`: the per-request decisions of a consensus connection for
    applications that take whole blocks, with a law that each block is
    handed over once, whole, carrying exactly its own transactions.
- `app/` — ordinary Rust around the library: the tokio servers, the
  Protocol Buffers encoding of messages, and the asynchronous application
  traits.
- `tests/` — tests of the library on concrete values.
