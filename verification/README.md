# rpdf

A small PDF toolkit whose core is verified with Verus: the object model, a
parser for the classic file structure (header, `startxref`, trailer,
cross-reference tables, objects, content streams, the page tree), and
undoable page-editing commands.

## Layout

- `src/types/` — the object model: objects and dictionaries, versions, the
  cross-reference table, content-stream operators, pages and documents.
- `src/parser/` — the parser, one module per part of the file; every
  parsing function states its result as a spec function over the input bytes.
- `src/edit/` — rotate, delete, merge, extract and split, the command
  stack, and the laws that undo gives back the document.
- `src/cli.rs` — reading page lists and ranges given on the command line,
  naming split files and choosing the pages to show.
- `src/text.rs` — decimal text and small string helpers.
- `app/` — the `rpdf` command-line program (`info`, `dump-pages`, `dump`)
  and page rendering through pdfium; floating point and I/O live here.
- `tests/` — tests of the library.
