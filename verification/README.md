# urglance

The verified core of a file-preview service: select a file and get its type, a
text snippet (at most 30 lines / about 4 KB), a metadata summary and, for images,
a JPEG thumbnail as a Base64 data URL. A small HTTP dashboard lists folders and
serves previews.

- `src/` — the library, written in Verus: Base64, URL decoding, size and
  permission formatting, path extensions and MIME types, the streaming snippet
  builder (which keeps a character split between two reads whole), preview
  assembly (with the `image` crate's decoding, scaling and JPEG encoding behind
  trusted wrappers in `picture`),
  request parsing and routing, the folder-listing order, the hover task state
  machine and the autostart entry. Each public function has a contract; the
  properties that span calls are proof functions next to the code.
- `tests/` — executable tests of the library.
- `app/` — the service itself: file and socket I/O, the tokio server, the hover
  manager's tasks and the C-library time conversion.
