# finance_api

A personal finance service: users, accounts, categories and transactions,
behind a bearer-token HTTP interface.

- `src/` is the verified library (Verus):
  - `datetime.rs`: calendar timestamps, their text form `YYYY-MM-DD HH:MM:SS`
    and proofs that writing and reading the text are inverse;
  - `records.rs`: the records of each table and the text of a transaction kind;
  - `table.rs`: keyed, owned tables, the lookups, listings and updates on them,
    and their laws (isolation, read after write, idempotent updates);
  - `auth.rs`: password hashes (bcrypt), session claims and the token check;
  - `error.rs`: the refusals and their HTTP status and text;
  - `ledger.rs`: the ledger of all tables and every request of the service,
    with the law that a registered user can sign in.
- `app/` is the HTTP server (actix-web), the SQLite database (diesel), JSON
  bodies (serde), token encoding and decoding (jsonwebtoken), and the `seed`
  command.
- `tests/` runs the library on concrete values.

`libsqlite3-sys` is named with its `bundled` feature so that diesel's SQLite
backend builds without a system SQLite library.
