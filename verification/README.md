# swaptrade

The SwapTrade contract logic as a Verus library: every function in `src/`
carries a `requires`/`ensures` contract that Verus proves, except three
trusted wrappers whose contracts are believed: `codec::sha256`
(`sha2::Sha256::digest`), `codec::hex_encode` (`hex::encode`) and
`governance::phase::now_secs` (the system clock, with nothing claimed).

## Layout

- `src/counter.rs`: the trading contract state (balances, the XLM/USDC pool
  and LP positions, the query cache) and its KYC-gated entry points.
- `src/kyc.rs`: the KYC state machine, operators and timelocked overrides.
- `src/staking_bonus.rs`: duration stakes, bonus tiers, claims, early exit and
  distributions.
- `src/governance/`: decentralization phases, timelock, multi-sig, Schnorr-style
  guardian proofs, the hash-chained governance log, DAO voting and
  multi-asset staking.
- `src/nft.rs`, `src/nft_lending.rs`: NFT valuations and marketplace queries,
  NFT-backed loans.
- `src/security_checks.rs`, `src/analytics.rs`, `src/state_snapshot.rs`,
  `src/referral.rs`: validation and rate limiting, risk signals and the
  circuit breaker, snapshots, the referral program.
- `src/keyed.rs`, `src/sums.rs`, `src/codec.rs`: a unique-key association list
  viewed as a map, sums over sequences, and byte encodings with the SHA-256
  and hex calls.
- `app/`: unverified glue: serde copies of governance types, JSON views, and
  entry points that panic with the contract's messages.
- `tests/`: executable tests of the library.

Laws that span several calls are public proof functions named `law_*`.

## What is not here

The trading contract's swap (`swap`, `safe_swap`), trade recording, the
portfolio queries (metrics, badges, tiers, transactions), the rate-limit
getters, batch execution, the multi-token pool registry (`register_pool`,
`pool_*`, `find_best_route`), the price oracle and `migrate` are built on
the contract's portfolio, trading, tiers, rate-limit, batch, liquidity-pool,
oracle, migration and events modules, whose sources this project does not
include; they are left out. What of the swap can be stated stands in
`counter.rs` as `swap_request_valid` and `swap_fee_split`. For the same
reason `add_liquidity` and `remove_liquidity` carry no LP rate limit and no
badge tracking.
