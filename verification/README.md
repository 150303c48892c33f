# rusqlite_facet

Binds SQL parameters from the fields of `Facet` structs (or from lists) and
reads query rows back into `Facet` types, on top of rusqlite.

- `src/` is the verified library (Verus). A prepared statement is modelled
  by the names of its parameters and the values bound to them, and a result
  row by the values and names of its columns (`src/sqlite.rs`). Over these
  models the library states and proves which value each parameter takes
  when it binds a struct's fields or a list's items, which column each
  field is read from and what reading it gives, how field values become
  SQLite values, the outcome of queries that want at most one row, and the
  text of error messages. The calls into rusqlite and facet are declared in
  `src/sqlite.rs` and `src/facet_types.rs`, each with the contract the
  library relies on.
- `app/` holds the extension traits on rusqlite's `Statement` and
  `Connection`: reflection over `Facet` values and shapes, preparing and
  executing statements, stepping through rows, and floating-point values.
- `tests/` exercises the library against in-memory SQLite databases.
