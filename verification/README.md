# price-oracle

Verified pieces of a Soroban price oracle.

- `src/price_math.rs`: relative price moves in basis points (signed and
  absolute), absolute price distance, and staleness of a stored price, each
  with an exact contract over mathematical integers, plus proof functions for
  the laws that relate them.
- `src/access.rs`: the oracle's admin and provider lists and the transitions
  that set the admins and add a provider.
- `src/token.rs`: the host effects of a transfer of a minimal test token
  (the payer's authorization, then one event); Soroban's `Address` is carried
  through as an opaque type.
- `app/`: the Soroban contract around the token, which performs the effects
  in the order the library gives, and the storage of the access-control
  state; Verus does not see it.
- `tests/`: scenarios and edge cases run against the compiled library.
