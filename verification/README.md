# master_of_coin_backend

The verified core of a personal-finance backend: accounts, transactions
and transfers, budgets, debts between people, CSV statement import with
duplicate detection, bank and brokerage sync, split-expense sync with
Splitwise and SplitPro (including drift detection), and encrypted provider
credentials.

## Layout

- `src/` — the library, written in Verus. Every function states its
  behaviour in `requires`/`ensures` and is proved against it. Amounts are
  `Decimal`s (an `i128` mantissa and a scale, as `bigdecimal` holds them);
  parsing and printing of amounts, dates, JSON, base64, AES-GCM and cron
  schedules go through the outside crates behind small trusted wrappers,
  each documented with what its contract claims.
- `src/services/` — the services' rules. Work that alternates with the
  database or a provider (a sync, an update of an expense, the creation of
  a debt) is written as step functions: given the answers so far, they say
  what to ask next and how the work ends.
- `tests/` — tests of the library on concrete values.
- `app/` — the parts that cannot be verified: floating-point request
  amounts, JSON bridging to `serde_json`, reports and settings.
