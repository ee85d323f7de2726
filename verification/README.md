# clipvault

The storage and rules of ClipVault, a clipboard history manager, as a
library verified with Verus.

- `src/` — the verified library: the SQLite-backed record store (capture,
  de-duplication, trash, tags, search, history, import/export, WebDAV
  tombstones and tag sync), the text/URL/sensitivity classifiers, the
  clipboard-monitor and paste state machines, palette snapping, image
  downscaling, the font picker's ordering and the AI enrichment rules.
  Pure rules carry exact contracts. What the database holds is SQLite's
  and is not modelled. Instead every `ClipboardDb` carries a ghost log of
  what it sent (`log()`, entries of `Sent`: statements run with their
  bound values, queries with the rows they returned, batches, refusals,
  rowid reads), appended by the store's own `exec` / `query` helpers in
  `src/db.rs`. Store functions state their effect over what they sent
  since the call began (`sent_since`): which statements ran with which
  values (the `*_SQL` constants and the `*_params` / `*_values` builders),
  how the result is made of the rows read back, how many times a
  statement ran (`count_runs`, e.g. the counts of a tag merge), and which
  statements never ran (a re-copy inserts no row and links no tag). Laws
  that relate several functions are public proof functions (`lemma_*`).
- `tests/` — behavioural tests run against the compiled library.
- `app/` — a small command-line host: the clipboard watch loop (text and
  bitmaps, one loop per process), copying a record back to the clipboard,
  the HTTP transport to the model, settings JSON, backup files and media
  files on disk. It does not send the paste keystroke or run the WebDAV
  transport.

Outside crates are reached only through the trusted wrappers in
`src/sqlite.rs` (rusqlite), `src/content.rs` (sha2), `src/ai.rs` (url),
`src/enrich.rs` (serde_json), `src/bundle.rs` (chrono), `src/image.rs`
(image's triangle resize), `src/text.rs` and `src/fgwin.rs` (std string
conversions).
