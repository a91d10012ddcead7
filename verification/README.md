# perl_lsp_runtime

The request-level logic of a Perl language server, written in Verus: each
public function carries a contract over a mathematical model (sequences of
characters, JSON values, byte spans), and the laws that relate several
functions are stated and proved as public proof functions.

## Layout

- `src/` — the verified library.
  - `lifecycle`, `dispatch`, `capabilities`, `initialize_reply`: the
    server's lifecycle state machine, request routing, the feature flags
    and client capabilities, and the reply to `initialize`.
  - `json`, `text`, `document`, `uri`, `regex_calls`: JSON values,
    string helpers, position/offset conversion, and the URL, path and
    regex calls behind trusted wrappers.
  - `code_actions`, `code_action_assembly`: quick fixes, source fix-all
    with conflict detection, and filtering by requested kind.
  - `diagnostics`, `diagnostic_json`, `publish`: diagnostics, their LSP
    form, pull reports with result ids, and publishing decisions.
  - `hover_text`, `symbol_hover`, `regex_hover`, `special_variables`, `builtins`,
    `completion`, `completion_list`, `completion_resolve`,
    `signature_help`, `moniker`,
    `rename`, `navigation`, `definition`, `import_source`, `declaration`,
    `document_links`,
    `module_resolution`: the text-level rules of the language features.
- `tests/` — tests run against the compiled library with the real outside
  crates.
- `app/` — the unverified shell: message framing over stdio, JSON
  conversion with `serde_json`, answering `initialize`, and the
  Perl::Critic profile lookup on disk.
