# block_production

The decisions of a block producer, verified with Verus.

A block producer takes transactions and commands, starts blocks, executes transactions in them,
appends batches that were executed elsewhere, and ends blocks. What it decides is here as a state
machine without I/O: it asks for one action at a time and is told what came of it.

## Layout

- `src/felt.rs`, `src/keys.rs`, `src/numeral.rs`: field elements, addresses and keys, digits.
- `src/assoc_map.rs`, `src/state.rs`, `src/cache.rs`: maps, state changes, and the cache that a block's
  state is read through.
- `src/adapter.rs`: answers to the state queries that execution makes.
- `src/append_batch.rs`, `src/transaction.rs`, `src/executor.rs`: batches, transactions, and what the
  executor works with.
- `src/waiting.rs`: waiting for transactions, commands and block hashes.
- `src/admission.rs`: which transactions are admitted.
- `src/execution.rs`: replaying batches, and counts over executed transactions.
- `src/block.rs`: how a block starts and ends.
- `src/thread.rs`: the executor.
- `src/history.rs`: what holds of the executor over whole runs.
- `src/handle.rs`: what commands are answered.
- `src/outside.rs`: what is taken on trust from other crates.
- `app/`: the channels, clocks, threads and database calls around the library.
- `tests/`: the library at work on concrete values.
