# kaleidoscope

The core of a self-hosted media library, verified with Verus: the media query
language (tokenizer, operators, values, validation, SQL generation and the
text form of a query), the directory tree of scanned files, the media formats
and their versions, the records and checks of the scanner, the rows of the
export, and the small decisions of the file daemon and the streaming server.

- `src/` — the verified library. Its public functions state what they return
  in their contracts; the laws of the library are public proof functions
  (`lemma_*`).
- `tests/` — tests of the library on concrete values.
- `app/` — what runs around it: the database (sqlx), the sockets (tokio), the
  serialized forms (serde), the command line (clap), and the computations in
  floating point.
