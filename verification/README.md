# pdf_agent

Converts the text of PDF pages into Markdown, HTML and JSON, with a desktop
workspace for reviewing the result and correcting blocks with a language
model. The library in `src/` states its behaviour as contracts and proves them;
`app/` holds the window,
the command line, file dialogs, the PDF reader, the model client and storage.

Layout of `src/`:

- `schema`, `document` — the document tree (pages, blocks, lines, spans) and
  its metadata; geometry in hundredths of a point.
- `builder`, `converter` — building the tree from a page source and running
  the processors in order, then rendering.
- `processors/` — tables, headings, lists, line merging, reading order,
  equations, table merging across pages, table of contents.
- `renderers/` — Markdown and HTML; `json` frames the table of contents.
- `app_state`, `ui` — the workspace state, its update rule (each message
  gives the next state and one action for the shell) and what the views show.
- `feedback`, `diff` — correction requests to a model, applying the answer,
  token counting; the line diff of a proposed revision.
- `jobs`, `job` — the registry of running conversions and their events.
- `laws` — properties across operations: read after write, undo and redo,
  the history's depth, idempotent relabelling, reading order, line merging,
  distinct block ids, HTML escaping and its decoding.

The tests under `tests/` run the library on concrete documents and states.
