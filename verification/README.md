# engine_core

Core of a bar-based backtesting engine for trading strategies, with its
integer and boolean logic verified by Verus.

- `src/` is the verified library: the fill schedule of the single-position
  engine (signal on the close of bar `i`, fill at the open of bar `i + 1`),
  signal and configuration validation, the position state machines of the
  BS1 exit passes and of the indicator recipes' exit pass, the plugin
  strategies' position bookkeeping (one position at a time, time limit,
  session-change flattening, retest windows), session-day indexing of UTC timestamps, recipe validation and
  parameter lookup, the data-set registry and the look-ahead comparison of
  bar-by-bar and batch signals.
- `app/` holds what works on `f64` prices and timestamps (indicators, the
  strategies' signal rules, fill prices, cash and metrics), the parallel batch
  runner, recipe file parsing and the Python bindings; it calls the library for
  every decision that does not need floating point.
- `tests/` exercises the library on concrete inputs.
