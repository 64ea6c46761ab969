# nebula_apps

The rules of a small business suite, verified with Verus: double-entry
accounting, stock control and the point of sale.

| Where | What |
|---|---|
| `src/decimal.rs`, `src/sums.rs`, `src/numerals.rs` | decimal numbers over `rust_decimal`, what sums of them are worth, and what their texts tell |
| `src/date.rs`, `src/clock.rs`, `src/windows.rs` | the calendar, moments, and the windows that dashboards look through |
| `src/text.rs`, `src/figures.rs` | texts and how figures are written |
| `src/search.rs`, `src/sort.rs` | looking up, filtering and arranging lists |
| `src/accounting/` | chart of accounts, journal, fiscal calendar, ledger, statements, tax, expenses, the posting port, the seed |
| `src/scm/inventory/` | items, warehouses, lots and serial numbers, the stock engine, levels and valuation |
| `src/scm/gl.rs`, `src/scm/entries.rs`, `src/scm/outbox.rs`, `src/scm/reconcile.rs` | what documents book, how the requests reach the ledger, and stock held against the books |
| `src/scm/pos/` | registers, sessions, sales, refunds, the close of a day and its reports |
| `src/report.rs`, `src/tile.rs`, `src/dashboard.rs` | reports and dashboard tiles as plain values |
| `tests/` | the library seen from outside |
| `app/` | the service around it: storage, HTTP, background work |

Amounts are exact wherever the exact result can be held; an amount that leaves
the range is an error (`Error::Overflow`), never a panic. What is loaded from a
database comes in as plain values, and a function says what the new values are.

Each module states its rules as spec functions, its functions in terms of them,
and, at the end of the file, the laws that follow: that posted entries balance,
that stock is never promised twice, that a till that syncs twice sells once.
