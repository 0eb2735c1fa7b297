# ferro-core

The logic of Ferro, a receive-only POP3 mail client, as a Verus library.

- `src/` is the verified library: the POP3 dialogue (status lines, multi-line
  replies, `STAT`/`LIST`/`UIDL` parsing, connection plan), the sync loop's
  decisions (what to fetch, batching, reconnects, progress), the maildir
  layout (FNV-1a bucketing, file names that cannot escape their directory),
  the CJK bigram tokenizer, the SQL the message list runs, settings and their
  normalization, account and colour-rule files, the terminal UI's key map and
  row texts, and the schedules of the background work. Outside crates are
  reached only through a few trusted wrappers (`mail-parser`,
  `unicode-width`, and std's Unicode tables), each with its contract stated
  beside it.
- `app/` is the program around it: the command line, SQLite, the keyring,
  sockets and TLS, the Tantivy index, the TOML files and the ratatui screen.
  It performs the I/O and asks the library what to do.
- `tests/` runs the library on concrete inputs.
