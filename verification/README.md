# btc_prediction_engine

A continuous, multi-scale BTC/USD prediction engine. Ticks stream in from four exchanges
(Binance, Coinbase, Kraken, Bitstamp); every tick updates the state, and predictions can be
queried at any time scale or window.

```text
feeds -> dedup + outlier filter -> price fusion -> features -> models -> stores, queries
```

## Layout

- `src/` is the library, verified with Verus. Prices and quantities are of any type that
  implements `number::Number`; `number::Fixed` is an exact decimal, and a program that runs on
  binary floats brings its own implementation. Clocks are arguments.
- `app/` is ordinary Rust around it: the float numbers, JSON, WebSocket connections, tasks
  and channels, locks.
- `tests/` runs the library.

| Module | What it holds |
|---|---|
| `types` | ticks, bars, books, snapshots; the tick and prediction rings |
| `dedup` | duplicates and spikes |
| `price_fusion` | clock drift, buckets, fused ticks |
| `features` | rolling returns, volatility, VWAP, order flow, activity, books, RSI, autocorrelation |
| `models`, `confidence` | moving-average crossovers, direction classifier, forecasts, signal fusion; why every confidence is a number |
| `pipeline`, `engine`, `query` | the stages, what they publish, and how it is read |
| `feeds` | messages, order books, credentials and reconnects of each exchange |
| `number`, `bounds`, `window`, `votes`, `text`, `clock`, `span`, `pick` | what the others share |

## What is trusted

Five functions are not proved: the wall clock, RFC 3339 times and calendar instants (`chrono`),
token signing (`jsonwebtoken`), and the standard library's text search. Each says in its doc
comment what is believed of it.
