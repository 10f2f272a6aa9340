# block_validator

Validation of the blocks of a blockchain, verified with Verus.

A block is validated against the chain of its predecessors, by the rules that are kept on the
chain, by the permissions of its batches' signers, and by executing it. The library also decides
what becomes of a block that was validated, hands blocks to workers in turn, and keeps the latest
results.

- `src/` is the verified library. Contracts speak of what a service answered through
  `call_ensures`; nothing is assumed of the services themselves (`src/service.rs`). A service that
  sends something off or changes is taken and handed back, so that a contract says what was done
  to it, in which order, and that nothing else was. The public proof functions whose names start
  with `law_` state what holds of the library as a whole.
- What is taken on trust stands in `src/store.rs` (the cache of the `uluru` crate) and in
  `src/python.rs` (byte strings of the Python runtime, through the `cpython` crate).
- `app/` holds the threads, channels and locks around the library.
- `tests/` runs the library on concrete blocks.
