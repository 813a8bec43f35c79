# algomln_core

The verified core of a desktop trading workstation for Indian equity
markets: order-status rules, scrip-master parsing and symbol resolution,
fuzzy symbol search, broker request planning, market-hours and live-trading
gates, live-session decisions, the backtest runner's command line, and the
plugin system's bookkeeping (manifests, capabilities, storage keys, event
routing, registries).

- `src/` is the library, verified by Verus against the `requires` and
  `ensures` contracts written on its functions; the few calls into outside crates (chrono,
  uuid, regex, csv) and into std where vstd has no specification sit behind
  small trusted wrappers whose contracts are documented beside them.
- `tests/` runs the library with the real outside crates linked.
- `app/` is the unverified shell: file and clock access, async plumbing,
  serde copies of the core's types, and the floating-point indicators,
  candle prices and rate limiter.
