# dvn

A LayerZero V2 DVN (decentralized verifier network) worker for the Internet
Computer, with its core verified in Verus.

The canister watches the DVN contract of each configured chain for
`TaskAssigned` events, asks several JSON-RPC providers in turn, approves a
task once two reads have reported it (threshold-2 consensus), and answers it
with a `verify` transaction signed by the canister's threshold-ECDSA key.

## Layout

- `src/` — the verified library:
  - `u256`, `text`, `hex`, `sort`: 256-bit arithmetic, JSON/hex writing,
    address parsing, stable sorting;
  - `gas`, `nonce`, `consensus`, `task`: fee prediction, nonce issuing, task
    approval;
  - `provider`: JSON-RPC batching, round-robin URLs, idempotency keys, and the
    response transform that makes all replicas see the same bytes;
  - `contracts`, `transaction`, `signer`: ABI calls, EIP-1559 transactions and
    EIP-155 signatures, through `ethers-core`;
  - `chain`, `state`: the per-chain task pipeline as steps between outcalls,
    and routing of tasks to their destination chains;
  - `ether_utils`: a simpler client that sends one call per outcall.
- `app/` — the canister itself: endpoints, timers, HTTP outcalls and
  management-canister calls, run between the library's steps. It builds the
  contract ABI in from `abi/dvn.json`.
- `tests/` — tests of the library on concrete values.
