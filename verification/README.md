# diskspace

A terminal disk-usage browser for macOS, split into a verified core and a thin
program around it.

`src/` is the library, written in Verus and checked by it:

- `text` — character-level string predicates, UTF-8 lengths, byte-boundary slicing.
- `paths` — parent, final component and joining of `/`-separated paths; the
  paths a whole-disk scan leaves out.
- `apps` — which applications are installed (names and bundle identifiers,
  read from `Info.plist` through the `plist` crate).
- `category`, `classify` — the categories and the rules that put a path in one.
- `order` — stable largest-first ordering.
- `dirmap`, `scan` — what a walk records: sizes per directory, bytes per
  category, the largest files, directory listings and snapshots.
- `display` — icons, colours, shortened names and labels (sizes printed by `bytesize`).
- `nav` — the browser state and what each key press does to it.

Each module states its contracts over spec functions; the public proof
functions named `law_*` state properties that hold across calls (badges read
back to their category, Tab cycling, drilling in and going back, what the
tallies are bounded by, and so on).

`app/` is the program: arguments, the file-system walk (`jwalk`), disk
statistics (`libc`), the drawing (`ratatui`, `crossterm`) and the event loop.
Share bars and percentages, which are computed in floating point, are drawn there.
