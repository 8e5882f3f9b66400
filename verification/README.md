# leaf_markdown

The verified core of `leaf`, a terminal Markdown viewer with Mermaid diagram
previews and a fullscreen diagram viewer.

- `src/` is the library, checked by Verus:
  - display-cell slicing, wrapping and plain output;
  - the Mermaid block frame, its preview window and the text of its lines;
    the frames of code and special blocks;
  - the diagram viewer's state machine (open, pan, select, search, layout
    controls, completions from the layout worker), its screen text and the
    split of its frame;
  - the worker's mailbox;
  - the keyboard dispatcher for every mode and the mouse handler for the
    document and the viewer (the event loop performs what they ask for);
  - the notes section written from footnote definitions, with their Mermaid
    blocks in place, and footnote numbering;
  - line maps, block-quote bookkeeping, command-line parsing and settings
    precedence.
  `src/laws.rs` states the properties that span several calls.
- `tests/` runs the library on concrete values.
- `app/` is the `leaf` command around it: arguments, files and stdin, the
  layout worker thread with the `mmdflux` engine, and the floating-point
  parts (spacing values, pie charts).

Not in this build: the Markdown event loop (it reads `pulldown-cmark` events
and relies on the list, table, inline-style, wrapping, syntax-highlighting,
table-of-contents, LaTeX and front-matter modules, none of which is part of
it), the terminal UI, the pickers, the configuration store, the editor and
clipboard integration, live reload and the inline-output formats. The
command prints documents as plain wrapped text and lays out `.mmd` files.
