# Rusty Wire

Wire-antenna planning across ham-radio and shortwave bands, as a Verus
library with a command-line program around it.

- `src/` — the verified library:
  - `bands` — the band catalog (edges in Hz), ITU regions, region-specific edges.
  - `app` — calculation modes, antenna models, unit and export choices,
    transformer recommendations and their reasons, result-view texts;
    `app::band_select` resolves band selections such as `40m,20m,10m-15m`
    and renders band listings.
  - `calculations` — transformer ratios and ground classes.
  - `cli` — run summaries, shell quoting, the interactive prompts' texts and
    decisions; `cli::interactive` is the interactive menu dialog as a state
    machine.
  - `band_presets` — named band presets of a bands configuration file.
  - `text`, `order` — character-level text handling and a stable sort.
- `tests/` — tests of the library's public functions.
- `app/` — the `rusty-wire` program: argument handling, terminal I/O, TOML
  reading, and the floating-point wire-length arithmetic.
