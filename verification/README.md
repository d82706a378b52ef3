# leafpress

Renders source code as SVG images: a Tree-sitter highlighting query marks up the source, each
capture group is mapped to a highlight style and a colour of a base16 palette, and the styled
text is drawn with Pango and Cairo.

## Layout

- `src/` — the library, verified with Verus:
  - `text` — byte order of names, string comparison;
  - `highlights`, `tables` — highlight styles, the sorted name→highlight table and the
    built-in tables;
  - `theme`, `colour_code` — colours, palettes, schemes and the reading of `#rrggbb` codes;
  - `parser` — captures of a query over a parsed source, the language symbol of a compiled
    parser, and the search for grammars among repository configurations;
  - `render` — the division of a source into styled tokens and the text attributes that draw
    them;
  - `config` — where the command line looks for its configuration, grammars and parsers;
  - `tree_sitter_config` — the contents of a `tree-sitter.json`.
- `app/` — the command-line program: file and directory access, JSON/YAML reading, dynamic
  loading of parsers, and drawing with Pango and Cairo.
- `tests/` — tests of the library.
