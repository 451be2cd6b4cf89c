# metis_pe

Parallel execution of blocks for an Optimism-style chain, with the Block-STM
algorithm, in verified Rust.

- `src/` is the library. It decides what a worker, an execution, a validation and
  a block do next, and makes a block's results of what the workers recorded:
  receipts with their gas counted up, and the accounts that were updated lazily
  evaluated in full. Every function has a contract, and Verus proves all of them
  but those of the eleven functions that call `revm` and `alloy-consensus`, from
  which 256-bit arithmetic, hardfork order, transaction types and a few constants
  come: what these contracts say is taken for granted.
- `src/laws/` states what holds of the library as a whole: of runs from their
  first request to their last, of results in whatever order they come about, and
  of a parallel execution beside a sequential one.
- `tests/` runs the library with the crates that it calls.
- `app/` is the executor at work: threads, storage, the virtual machine and the
  node around the library.
