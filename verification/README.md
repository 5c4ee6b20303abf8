# yororen_ui_xml

The compile-time XML layer of yororen-ui: an XML description of a UI
(`<Column>`, `<Button on_click={…}>`, `<For>`, `<Template>`, `<Include>`, …)
is parsed, checked against a schema of known tags, and turned into the Rust
code that builds the same UI with the headless components.

The library in `src/` is written in Verus; each public function states what
it returns in its contract, and Verus proves the code against it.

- `normalise`, `parser`, `xmldoc`, `location`: XML preprocessing, parsing
  (roxmltree) into the AST of `ast`, and error locations; `normalise_laws`
  proves that the preprocessing rewrite is idempotent.
- `schema`: the tags, their props, events and container shorthands.
- `gen_spec`, `gen`, `leaf`, `values`, `handlers`, `style`, `text`,
  `events`, `emit`: the code generator, with its specification in
  `gen_spec`.
- `templates`, `includes`, `compile`: `<Template>` expansion, `<Include>`
  splicing and the entry points.
- `class`: the `class="…"` layout vocabulary.
- `rustlex`: the Rust lexer and expression parser (proc-macro2, syn) the
  generator consults.
- `schemagen`, `outline`, `overrides`, `render`, `pipeline`: the schema
  generator, which reads the headless component modules with syn, merges
  `overrides.toml` and renders the generated schema table.
- `runtime`: what the runtime XML renderer decides for each element.

`app/` holds what is not verified: the `TokenStream` API for the proc
macro, the schema generator's program (directory walk, file I/O, TOML), and
the runtime renderer that builds gpui elements.
