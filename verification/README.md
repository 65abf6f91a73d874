# secret_raffle

A raffle contract for a CosmWasm chain. The host sets it up with a secret seed
and a whitelist, may add accounts to the whitelist, and ends it: the block time
joins the entropy, and ten distinct winners are drawn from the whitelist with a
generator keyed by SHA-256 of the seed and the entropy (ChaCha20 key stream).

- `src/` is the library, verified with Verus: the generator (`rand`), the
  raffle's state (`state`), the host's requests and the queries (`contract`),
  the reply texts (`reply`) and byte helpers (`bytes`).
- `app/` holds the contract's entry points, messages and storage, which
  convert between the chain's types and the library's.
- `tests/` runs the library, comparing its draws with the generator computed
  directly from `sha2` and `rand_chacha`.
