# mycel

A graph-aware code intelligence layer: source files are parsed with
tree-sitter into symbols and edges, refined by a language-server bridge,
stored in FalkorDB, embedded and described by local Ollama models, and
queried by name, relationship or meaning.

## Layout

- `src/` — the library, verified with Verus.
  - `text` — character-level string functions (lines, trimming, search,
    ordering, decimal rendering).
  - `cypher`, `queries`, `rows` — Cypher literal escaping, every statement
    the graph layer issues, and decoding of result rows.
  - `symbol`, `edge`, `error`, `manifest` — the data model, the index
    manifest, schema migrations and the embedder-mismatch guard.
  - `syntax`, `extract` — tree-sitter parsing and the rules that turn query
    matches into symbols and edges for Rust and TypeScript.
  - `pipeline`, `lsp`, `body_slice` — the indexing decisions: skipping
    unchanged files, same-file resolution, the sites sent to the bridge and
    the edges made of its answers, body slices and their hashes, embedding
    batches and staleness.
  - `indexing` — one file's indexing as a state machine: each step decides
    the next graph, bridge, embedder or file action from what the last one
    gave; the command line and daemon only perform the actions.
  - `config`, `models`, `synthesis` — layered configuration, model
    settings and reply checks, description prompts and passes.
  - `paths`, `watch` — repository ids, skill and service files, and the
    watcher's event filtering.
- `tests/` — tests of the library.
- `app/` — the `mycel` command line and daemon: FalkorDB, Ollama, the
  bridge subprocess, the file system and the watcher.
