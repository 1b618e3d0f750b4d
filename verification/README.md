# markplus_render

Renderer for MarkPlus documents. A document (`SiteAsset`: front matter and a
JSON tree of block nodes) is handed to MiniJinja templates, HTML and Typst
alike, as one context: the front matter, a slug, a table of contents and the
block nodes themselves. The block renderers turn the nodes into HTML, Typst
source or Markdown, with plugins (shipped or user-written) taking over fenced
blocks, directives and widgets by name; Typst source can be compiled to PDF.

The library in `src/` is verified with Verus: every renderer states the exact
text it writes, over spec functions on the JSON tree.

- `json`, `json_text`: the JSON value model, field lookups, and the JSON text
  handed to the template engine.
- `blocks`, `plugins`, `plugin`: block and inline renderers, the shipped
  plugins (columns, mermaid, tabs, tooltip) and the plugin registry.
- `context`: table of contents, slug and template context.
- `filters`, `template`, `engine`, `render`, `pdf`: template filters, the
  engine and its templates, rendering, output kinds and PDF compilation.
- `postprocess`: post-processors run on an asset before rendering.
- `text`: string helpers.

`app/` holds what touches the outside world: reading the templates directory,
writing files, printing compiler warnings, the WebAssembly bindings and the
conversion from `serde_json` values.
