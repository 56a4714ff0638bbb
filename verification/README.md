# sargon_mfa

Pre-derivation of hierarchical deterministic factor instances for a wallet
with multi-factor security shields, verified with Verus.

Layout:

- `src/types/` — factor sources, derivation paths and indices, factor
  instances, entities (accounts, personas, matrices of factors), profile, and
  the ordered map and set the rest is built on.
- `src/factor_instances_provider/` — index agnostic paths and presets, the
  cache of factor instances per factor source and path, the assignment of the
  next derivation entity index (from the profile, the cache and local
  offsets), and the provider that takes instances from the cache or says what
  to derive and how to split what was derived between direct use and the
  cache.
- `src/pre_derived_keys_cache/` — a cache of probably free instances keyed by
  request, and what it answers to quantified requests. The provider over it
  (`factor_instances_provider/pre_derived_provider.rs` and the modules it
  uses) takes what the cache holds, plans the paths to derive in abundance
  where it falls short, and once they are derived uses what the purpose asks
  for and caches the rest.
- `src/gateway.rs`, `src/test_gateway.rs` — on-chain entity state and an
  in-memory ledger.
- `src/recovery.rs`, `src/entity_recovery.rs` — recovery of accounts and
  personas from the instances a gateway knows.
- `app/` — the asynchronous side: gateway and key derivation traits, and the
  provider operations that await derivation between the library's steps,
  for both providers.

The ordered map and ordered set in `src/types/` are the crate's own rather
than `indexmap`'s. The library uses one generic map type at many key and
value types (one of them generic itself, instances per path for any instance
type), with contracts stated once over the map's entries. An outside
collection can be given contracts only through a name for the contents of
one concrete instantiation, so each instantiation would need its own name and
its own set of wrappers, and every lookup would rest on `Hash` and `Eq` impls
that `derive` wrote and Verus does not read.
- `tests/` — scenarios and edge cases run against the compiled library.
