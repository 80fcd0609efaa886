# zvec_grep

The decision logic of zvec-grep, a code-context search tool built around
managed ripgrep and workspace indexes, written in Verus: every function in
`src/` carries a `requires`/`ensures` contract that Verus proves.

## Layout

- `src/` — the verified library.
  - Command line: `cli_args` (grammar of `zg`), `cli` (plans and terminal
    rendering), `managed_rg` and `rg_args` (the managed ripgrep dialect),
    `context` (context requests and replies).
  - Search: `lexical` (lexical requests and replies), `ripgrep` (argument
    building, event parsing with UTF-16 columns, context windows, ranking and
    truncation), `service` (the engine value and context planning).
  - Workspace: `path` (path components and ordering), `pattern` and `glob`
    (include/exclude patterns over `globset`), `file_type`, `scanner`
    (discovery decisions), `watcher` (the watch loop as a state machine and
    event normalization), `resident` (the daemon's registry of watched roots).
  - Indexing and models: `indexing` (model choice, compatibility, roots and the
    plan of an index run), `extraction` (image extraction, entity
    ids over `sha2`, embedding text), `models` (input and output validation),
    `qwen` (request preparation and response placement), `storage`, `ports`,
    `domain`, `protocol`, `errors`.
  - `laws` — properties that span functions, stated as proof functions.
  - `text`, `sort` — character helpers and a verified stable sort.
- `tests/` — ordinary Rust tests of the library.
- `app/` — the `zg` program: environment, processes, files and JSON decoding
  around the library.
