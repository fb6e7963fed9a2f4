# stellar_insure

A parametric insurance protocol with a liquidity pool, verified with Verus.

- `src/` is the verified library. Each contract entry point is a function on
  an `Env`: the contract's stored data (`Storage`, specified through its view
  `StorageView`), the facts of the current ledger (`Ledger`), and the log of
  effects the host must carry out (authorisations, token transfers, calls to
  the pool, events, code upgrades). Contracts state, for every input, the
  result, the stored data afterwards and the effects logged; a refused call
  leaves the stored data as it was.
  - `premium.rs`: pricing; `policy.rs`: policy helpers; `multisig.rs`:
    admin votes; `storage.rs`: the stored data and its accessors;
    `contract.rs`: the insurance contract; `risk_pool.rs`: the pool;
    `oracle.rs`: the oracle feeds; `limits.rs`: the range conditions of
    the entry points; `laws.rs`: properties of the protocol as a whole.
- `tests/` runs the library on concrete scenarios.
- `app/` exposes both contracts on the ledger: it reads stored data into the
  library's `Storage`, calls the library, performs the logged effects and
  writes the data back.
