# xtrader

The back end of a small exchange, with its logic verified by Verus.

- `src/` is the library, verified by Verus: each function's contract is proved
  (a random coin flip, `random::coin`, has none, as any answer is possible). It holds
  orders and order books (`model`, `order_book`), price-time priority matching
  (`matching`, `engine`, `ultra`), order book change tracking (`orderbook_tracker`),
  market data (`mdp`: candles, statistics, their cache and client), the message
  queues around the engine (`mq`: backup queue, health monitor, recovery, the
  producers' and consumers' messages and routing), caches (`cache`), the database
  batches (`db`), monitoring (`log_analyzer`, `notification`, `dashboard`,
  `system_health`), the API handlers (`api`), regulatory reporting and the analysis
  scheduler (`external`, `analytics`), the made-up data set (`data`) and the order
  simulator's orders (`simulator`). Laws that relate several operations are public
  proof functions named `law_*`.
- `src/outside.rs` holds every call into std or an outside crate whose behaviour
  Verus cannot see (clock, random numbers, uuid, chrono, serde_json documents, lower
  casing, the `dashmap` map and `crossbeam` queue of the lock-free cache), each with
  the contract it is trusted to meet.
- An order book keeps each side's price levels in a vector sorted by price, best
  first; that order is part of the book's well-formedness, and the matching proofs
  work on that sequence. `book_index` states when the book's id index is exact and
  proves that adding new ids and cancelling keep it so.
- `app/` is the program around the library: file loading, the periodic loops, and
  the parts computed in floating point (rates, prices, mock analysis results).
- `tests/` exercises the library from outside.
