# md2paper

Markdown to typeset PDF through Typst, as a verified library and a command
line around it.

A document's YAML front matter is split off and read, its body parsed by
comrak into a document tree (read back from comrak's CommonMark XML), the
tree turned into Typst markup behind a preamble built from the theme, and
the markup compiled to PDF by Typst.

## Layout

- `src/` — the library, verified with Verus.
  - `text.rs`, `escape.rs` — character-level helpers and Typst escaping.
  - `theme.rs`, `inject.rs` — the theme model, the built-in themes and the
    Typst preamble.
  - `config.rs` — the configuration, its builder, and how front matter
    overrides it (builder options, then front matter, then the theme).
  - `frontmatter.rs`, `yaml.rs` — finding the front matter and reading its
    fields.
  - `xml.rs`, `markdown.rs`, `ast.rs` — the parser's XML form, its reader,
    and the document tree.
  - `transform.rs`, `math.rs` — the document tree to Typst markup, with
    math in LaTeX (KaTeX) notation turned into Typst math.
  - `render.rs`, `date.rs` — the in-memory Typst world and PDF export.
  - `pipeline.rs` — Markdown to Typst markup and to PDF.
  - `dump.rs` — the document tree as JSON.
  - `cli.rs`, `preview.rs` — the decisions of the command line, the preview
    server and the watch loop.
- `app/` — the command line: argument parsing, files, theme files, image
  downloads, the preview server and the file watcher.
- `tests/` — tests of the library.
