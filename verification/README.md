# snm_fdbcli

A FoundationDB directory and tuple toolkit, verified with Verus.

- `src/text.rs`: Unicode whitespace, trimming, ASCII case-insensitive
  comparison.
- `src/tuple_text.rs`: tuple text such as `(user-1)`, its tuple-layer
  encoding, packing and unpacking through `foundationdb-tuple`.
- `src/hex_text.rs`: hexadecimal text through `hex`.
- `src/directory.rs`: keys and prefix ranges inside a directory, and the
  byte order of keys.
- `src/spaces.rs`: the `srotas/*` directories and the sample records.
- `src/repl.rs`: how the shell reads lines and commands, and what the tuple
  commands answer.
- `app/`: the command line and shell program, which talks to the database.
