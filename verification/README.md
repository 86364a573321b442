# poly_strategy

Trading strategy for short-window prediction markets on crypto prices ("will the price be above the
strike when the window ends?"), as a Verus library whose contracts are proved.

## Layout

- `src/` is the library. It computes and decides, and does nothing else.
  - `decimal`: decimal numbers of 96 bits and up to 28 places, computed with `rust_decimal`. Their
    value is an integer number of units of 10^-28, and the spec functions over such values (`sum`,
    `product`, `quotient`, ...) are what the other contracts are written in. They give `None` where
    an operation overflows, and such inputs are left out by the callers' `requires`. `divided`
    and `divided_by` are quotients by numbers that may have a coefficient of more than 64 bits: they
    leave out the few results that `rust_decimal` does not round to even there.
  - `types`, `config`, `table`, `text`: assets, order books, inventories, settings, tables by text
    key, and texts.
  - `signal`, `confidence`, `arb`, `directional`, `maker`, `pricing`, `aggregator`: what each engine
    finds in a market, and which of them wins.
  - `toxic`, `sizing`, `confidence_sizing`, `position`: how much is traded, if anything.
  - `atr`, `regime`, `pivots`, `price_buffer`: what is remembered of prices.
  - `market`, `maker_orders`, `strategy_config`, `strategy`, `steps`: the state of the strategy, and
    its steps from an event to an order and from the result of an order to the books.
  - `strike`, `decision_log`, `trades_log`: prices on the page of an event, and the rows and
    summaries that are logged.
- `tests/` runs the library on given values.
- `app/` is the loop around it: events, orders, files and pages. Square and fourth roots are taken
  there, in floating point; the library takes them as arguments.

Times are milliseconds since 1970, and the current time is an argument where it matters.

Public proof functions whose names begin with `law_` state what holds of the library as a whole.
With `law_rounded_value` and `law_off_edge` of `decimal` in scope, results on given numbers can
be computed in proofs.
