# esp_live

A terminal tracker of professional Dota 2 matches (finished and live, from
the OpenDota API), with a local SQLite cache and per-team win/loss records.

- `src/` is the verified library: match models and their labels
  (`models`), text rendering and search (`text`), the interface state with
  filtering, stable sorting, selection and key handling (`app_state`), the
  key debounce (`keys`), the fetch retry schedule (`fetch`), errors
  (`error`), the text of every view (`screen`) and properties that span
  several operations (`laws`).
- `app/` is the program around it: HTTP requests, the SQLite cache, the
  terminal event loop and the ratatui drawing.
