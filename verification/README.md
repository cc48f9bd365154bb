# suture

`suture` is the package manager of the Mentalogue language. This crate is its library,
written in Verus: every function under `src/` carries a contract that Verus proves.

Layout:

- `src/text.rs`, `src/order.rs`, `src/paths.rs`: strings as character sequences (trimming,
  line splitting, escaping, decimal numbers), the order of string keys, and `/`-separated
  paths.
- `src/kv.rs`: the line grammar shared by both file formats.
- `src/spool_entry.rs`, `src/entry_laws.rs`: registry index entries, their `spool.toml`
  text, the reader, and the proof that reading a written entry gives it back.
- `src/schema.rs`, `src/manifest_laws.rs`: project manifests (dependencies kept in key
  order), their `suture.toml` text, the reader, and the proof that reading a written
  manifest gives it back.
- `src/search.rs`, `src/cache.rs`, `src/support.rs`: the registry index layout, searching
  it, and the layout of a project.
- `src/commands.rs`, `src/commands/`: what each command line asks for, and the messages.
- `app/`: the command-line tool, which does the file, process, environment and network work
  and calls the library for every decision.
- `tests/`: tests of the library on concrete values.
