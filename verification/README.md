# vespertide

A verified core for the Vespertide schema language server: database
object naming, and the editor analyses over parsed JSON / YAML model files
(diagnostics, hover, go-to-definition, references, rename, completion,
code actions, semantic tokens, workspace symbols, drift reporting), each
with a contract proved by Verus.

Layout:

- `src/` — the library. `syntax` holds the syntax-tree model that every
  analysis reads; `parse` builds it with tree-sitter; `text` holds the string
  helpers; one module per editor feature; `store` keeps the open documents;
  `position` converts editor positions to byte offsets.
- `tests/` — tests of the library on concrete inputs.
- `app/` — the language-server binary: the LSP wiring, file access, and the
  calls into the Vespertide schema crates (model deserialisation, schema
  validation, the CHECK-expression lexer and parser, the migration planner),
  whose results it hands to the library as plain values.
