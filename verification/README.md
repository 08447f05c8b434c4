# ollamabar_lib

The verified core of OllamaBar, a tray-resident usage viewer for Ollama Cloud
API keys, written in Verus.

`src/` is the library, proved by Verus:

- `reset` — estimated window resets: the next five-hour Unix bucket boundary and
  the next Monday 00:00 UTC, with the laws that make them the next boundary.
- `state` — the per-key state machine: successes and failures, the three failure
  levels (degraded, invalid key, dead after a day), stalled server clocks and
  observed session resets, and the snapshot a key shows.
- `history` — laws over whole runs of readings: observed resets, stalled server
  clocks and failure levels follow from the readings alone.
- `runtimes` — the table of all keys, ordered by alias; the dashboard state and
  what one reading changes and asks the store to write.
- `store` — detail-log rows merged from samples, events and resets, newest first.
- `poller` — the shared two-second rate limit of timed and manual readings, and
  the law that any two readings start at least that far apart.
- `config`, `commands`, `ollama` — input checks, configuration edits, file names,
  the text of an exported log,
  HTTP status and response rules.
- `calendar`, `text`, `order` — instants (Unix seconds and nanoseconds), their
  RFC 3339 text, text helpers and byte order.

Usage shares are held in millionths of a window. `app/` holds the desktop shell:
Tauri commands and tray, tokio tasks, reqwest, serde copies of the types
(shares as percentages), JSON decoding and the SQLite store.
