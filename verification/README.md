# sqlited

Helpers for working with SQLite from Rust: table declarations that produce their
`CREATE TABLE` statement and migrations, SQL written without quotes, parameter holders,
conversions between Rust values and SQL values, custom column types, migrations and
savepoints.

The crate is written in Verus. `src/` is the verified library: Verus checks every function
there, and the public ones carry contracts that state what they do. The few calls into other crates (`md5`, `sqlformat`,
`rusqlite`, `uuid`, `chrono`, `solana-pubkey`) and into std's Unicode tables sit behind small
trusted wrappers whose contracts say what those crates document.

- `text`: snake-case names, edit distance and spelling suggestions, decimal rendering.
- `value`, `convert`, `bindable`, `time`, `pubkey`: SQL values and the `ToSql` / `FromSql`
  conversions, custom column types, timestamps, public keys.
- `params`, `table_info`: `WithoutId` field sets, parameter holders, insert statements.
- `attributes`, `schema`, `table`: reading table declarations, `CREATE TABLE` statements,
  generated migrations.
- `sql_as`: storage styles of custom types, text and number mappings of enums.
- `sql_tokens`, `sql_check`, `query`: SQL written as tokens, its checking and layout, query
  return types.
- `statements`, `apply`, `migrations`, `savepoint`, `database`: migration scripts and keys,
  the run that applies them, the migrator, savepoints.

`app/` holds what talks to SQLite itself: pools and connections, rows, running savepoints and
migrations, floating-point columns and serialized column types. `tests/` exercises the
library.
