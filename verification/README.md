# rift_l1

A ledger whose rewards reach every participant through one scalar field,
verified with Verus.

- `src/ledger/state.rs` — `CoreState` and `Account`, the SIRM invariants
  (`sirm`, `well_formed`), the invariant check with its exact error texts,
  the debt limit and the state fingerprints.
- `src/ledger/operations.rs` — `register`, `unregister`, `transfer`,
  `redistribute`, `apply_neg_entropy`. Each is specified by an `*_outcome`
  spec function; a refused operation leaves the state unchanged.
- `src/ledger/laws.rs` — the invariants are kept by every operation, the
  check refuses only what overflowed, and the economics of each operation.
- `src/token/` — `RiftTokenState`: share minting against the field pressure,
  rebase, fingerprint, and its laws.
- `src/harness.rs` — the stress harness: `run_ops` runs a case on given
  inputs with an exact contract (`case_result`); `run_case` draws those inputs
  from a seeded `rand_chacha` generator through small trusted wrappers, whose
  values are named by `seeded_draw(seed, requests)`, so a case is a function
  of its seed (`case_fee`, `case_supply`, `case_ops`); `op_for_kind` builds
  the operation of each kind.
- `src/decimal.rs`, `src/error.rs` — decimal text of integers, the error type.
- `app/main.rs` — the multi-threaded command-line fuzzer around the harness.

Verify with Verus on `src/lib.rs`; the tests under `tests/` run the library.
