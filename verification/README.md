# Tileboard

A terminal dashboard with a snapping grid, spanning tiles, and layouts you control.
The rules of the dashboard are a library whose behaviour is stated in contracts and
proved; a thin program around it talks to the terminal, the file system and the system.

## Layout

- `src/` — the verified library.
  - `grid.rs`: placements, collisions, and the mapping between grid cells and terminal cells.
  - `config.rs`, `validity.rs`: the configuration, responsive profile selection, validation,
    and the edits that keep a configuration valid.
  - `tiles/`: the built-in tile kinds, their settings and rules, and the registry.
  - `schedule.rs`, `metrics.rs`: each tile instance's refresh schedule and network throughput.
  - `app.rs`, `app/`: the dashboard state: the editor, previews, undo, forms, profiles, keys
    and mouse.
  - `field.rs`, `text.rs`, `theme.rs`, `integrations.rs`, `ieee.rs`: text fields, text
    building blocks, themes and formatting, outside reports, and comparisons of doubles
    held as bits.
- `app/` — the terminal program: arguments, the TOML file, the collector of system
  metrics and outside sources, drawing, and the event loop.
- `tests/` — tests of the library.

Work that the library cannot do itself comes back from its key handler as an `Effect`
(save, reload, store a profile choice, parse numbers); the program carries it out and
reports the outcome to the library.
