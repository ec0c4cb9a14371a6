# ledger

A personal ledger: accounts with their transactions, balances, monthly repeating
transactions and projections of balances into the coming months.

- `src/` is the library, verified with Verus. Amounts are exact decimals whose arithmetic
  is done by `rust_decimal` (`src/amount.rs`); dates are UNIX timestamps whose calendar
  arithmetic is done by `chrono` (`src/datetime.rs`). `src/accounts.rs` and
  `src/ledger.rs` hold the accounts of the ledger program and what the user does to them;
  `src/app/` holds the accounts of the multi-currency application, its monthly
  bookkeeping and the reading of exchange prices.
- `tests/` runs the library on concrete values.
- `app/` is the program: a text interface over the accounts, saving them as JSON, and the
  fetching of prices over HTTP.
