# accensa_contracts

Two settlement contracts for merchants, as a verified library.

- `receipt_anchor`: a merchant anchors batches of receipts by their Merkle root. Batches
  live in shards of fixed capacity that a factory deploys on demand; anyone can verify a
  receipt against a batch, or against a root that is still in the ring buffer. Old batches
  are pruned oldest first.
- `refund_vault`: a merchant keeps a float of a token and refunds payments from it, in part
  or in full, within a window, a deadline, a delay that has to be proved (`vdf`) and the
  median of the merchant's oracles (`oracle`). Idle float can be deployed to a yield
  strategy.

## Layout

- `src/` holds the rules of both contracts. A call takes the stored entries and an `Env`
  (the ledger, who signed, the balance) and leaves new entries and a list of effects. Its
  contract says exactly when it is refused, with which error, and what it changes. The
  `laws` modules, and functions named `law_*` elsewhere, state what holds across calls;
  the `history` modules state what holds of any sequence of calls, and `shard_rules` what
  the anchor relies on its shards for.
- `app/` holds the contracts on the ledger: storage, signatures, transfers, cross-contract
  calls and events.
- `tests/` runs the library with tokens, shards, oracles and strategies in memory.

## What is believed without proof

- `hash::sha256`: the digest is a function of its input. Nothing else is used of it.
- `refund_vault::bigint`: modular arithmetic on 128 and 1024 bits.

Other contracts (oracles, shards, strategies) are reached through traits that only give
names to their answers and to what a call leaves stored there.
