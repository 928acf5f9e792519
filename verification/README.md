# orga

A state machine framework for blockchain applications, written as a Verus
library: the data structures, coin accounting, staking rules and ABCI request
handling are executable Rust whose behaviour is stated in `requires` /
`ensures` contracts and proved by Verus.

## Layout

- `src/` — the verified library.
  - `collections/` — an ordered map, a double-ended queue, key successors,
    and the merge of a map's buffered writes over its sorted store.
  - `store.rs` — the key/value store.
  - `coins/` — amounts and decimals (computed by `rust_decimal`), coins,
    accounts, shares, reward pools, the faucet and staking (validators,
    delegators, queues, slashing, voting power).
  - `abci/` — the ABCI state machine (buffered block and mempool writes,
    commit) and signed transactions.
  - `client/` — call traces, query steps over partial stores, and wallets
    (secp256k1 keys).
  - `call.rs` — call routing and encoding.
- `app/` — what stays outside the proofs: serving ABCI requests with the
  machine, and reading or creating wallet key files.
- `tests/` — tests of the library.

Outside crates are reached through small trusted wrappers whose contracts
name or state what the crate computes; each names the function it calls.
