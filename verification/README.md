# poshanka

A Wayland popup subscriber for a notification provider: it reads the
provider's NDJSON feed, keeps the visible notifications, styles each one from
a TOML theme with per-app and per-urgency override fragments, and paints the
cards as layer-shell surfaces stacked in a screen corner.

## Layout

- `src/` — the library, verified with Verus:
  - `color` — `#RRGGBBAA` parsing and BGRA order;
  - `feed` — feed line framing and decoding, the notification snapshot,
    one-shot provider command lines, feed-thread decisions;
  - `config`, `theme`, `settings`, `cli`, `error` — configuration, theme
    merging, override matching and the resulting card style;
  - `icon` — icon lookup order and raw pixel buffers;
  - `render` — frames and Pango markup templates;
  - `wayland` — corner anchoring, stacking offsets, stack composition and the
    surface/pointer decisions of the overlay;
  - `text`, `paths` — character-level helpers and path joining.
- `tests/` — tests of the library.
- `app/` — the `poshanka` program: command line, files, provider processes,
  Cairo/Pango drawing and the Wayland event loop.
