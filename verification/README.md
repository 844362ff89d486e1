# based_rollup

The driver of a based rollup node, written in Verus: which L2 blocks are built,
how they are held to what L1 says, when they are submitted to L1, and how the
node recovers when the two disagree.

- `src/` is the library. All of it is verified. The driver's state is plain data
  (`driver::Driver`), and the long-running work is laid out as dialogues: an
  event goes in, the state changes, and the next action comes out.
  - `step_machine`, `derive_walk`, `builder_machine` and `flush_machine` are the
    dialogues: one step, going through derived blocks, building, and submitting.
  - `verify`, `recovery` and `hold` hold the rules for blocks that differ from L1.
  - `flush`, `flush_precheck`, `flush_plan`, `triggers` and `gas` hold the rules
    for batches.
  - `queues`, `pending_queue`, `step_builder` and `protocol_txs` hold the rules
    for the contents of blocks.
  - `journal`, `replay` and `transactions` hold what survives a crash or a rewind.
- `tests/` runs the library.
- `app/` is ordinary Rust around it: the main loop, and the traits by which the
  node reaches L1, the local chain, the execution engine, the pool and the
  derivation pipeline.

RLP, ABI encoding, hashing, signature recovery and the base fee rule come from
the `alloy` and `reth` crates. What is assumed of them stands above the functions
that call them, in `transactions`, `triggers` and `gas`.
