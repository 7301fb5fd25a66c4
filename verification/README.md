# rustlab

A collection of small Rust programs whose logic is verified with Verus.

- `src/` is the verified library:
  - `chapters`: book exercises (rectangles, coins and states, a restaurant's modules,
    generic helpers, shirt giveaways).
  - `playground`: a binary search tree, a stack, hash-map caches, borrowed-text helpers,
    reference-counted graph nodes, a counter, email addresses, Fibonacci numbers and word
    counting.
  - `taskflow`: the task manager behind the `taskflow` command: validation, lookup by id
    prefix, filtering, search, statistics and CSV export.
  - `kv`: an in-memory key-value store with expiring entries, ordered prefix scans, list
    values and log operations.
  - `quant`: candle intervals, trading-pair filtering, errors and the cache decisions of
    the market-data pipeline.
  - `text`: verified string helpers shared by the modules above.
- `app/` holds the `taskflow` command line, the JSON data file, the key-value engine with
  its write-ahead log and expiry task, the market-data pipeline over HTTP and Parquet, and
  the example programs.
- `tests/` exercises the library.
