# initial_setup_pages

The decision logic of two pages of a desktop first-run setup assistant,
written in Verus and verified.

- `src/` — the verified library.
  - `decimal` — decimal, zero-padded, fixed-point and percent text
    (integer digits come from `itoa`).
  - `text` — the part of a string before a separator; text equality.
  - `metadata` — a layout's `layout.kdl` (parsed by `kdl`): display names
    by locale and the layout number.
  - `layout` — the layout page: stable ordering by number, picking a layout,
    name fallbacks, the three-column grid, the locale from `LANG`.
  - `welcome` — the welcome page as a state machine (`step`) from message to
    next state and action, with the `cosmic-randr` commands that rescale the
    displays.
- `tests/` — tests of the library on concrete values.
- `app/` — the I/O around the pages: file system, environment, channels,
  processes.
