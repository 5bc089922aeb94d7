# meme_sandwich

A verified library for finding and planning sandwiches around buys on the
FOUR.MEME bonding-curve launchpad (BSC).

- `src/uint.rs` — 256-bit words; the arithmetic is alloy's (`ruint`) behind
  trusted wrappers whose contracts state the result over the word's value.
- `src/primitives.rs` — addresses and hashes.
- `src/meme.rs` — reading buys and sells out of calldata, encoding calls, the
  bonding-curve formulas, and finding bots in a block.
- `src/search.rs` — the ternary search for the most profitable sandwich.
- `src/tx_cache.rs` — the `lru` cache of seen transactions behind trusted items.
- `src/strategy.rs` — the strategy's decisions: events, skipping, bots, and the
  bundle for a solution.
- `app/` — the command-line program: node access, conversions to alloy types.
