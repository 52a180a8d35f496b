# Seythm core

Seythm is a terminal six-key rhythm game: bundled charts, osu!mania import, a
browsing shell with search and sorting, settings with calibration, autoplay and a
replay view of the last play. This crate, `code_m`, holds the game's rules as a
Verus library whose functions carry contracts that Verus proves.

## Layout

- `src/` — the verified library.
  - Charts and play: `chart`, `judgment`, `scoring`, `gameplay` (a play's judged
    notes and totals), `session` (a play with its lane and judgment feedback),
    `flow` (loading, play, results and the replay view), `replay`, `autoplay`,
    `scheduler`, `input`, `keymap`, `clock`, `clock_sync`.
  - The shell: `navigation` (screens and where they return to), `keys` (what each
    key does on each screen), `intro`, `settings`, `theme`, `layout`, `widgets`,
    `browse` (sorting and search), `branding`, `device`, `cli`.
  - Content: `catalog`, `artwork`, `kitty` (terminal cover images), `osu`
    (beatmap parsing and conversion), `text` (character-level helpers).
- `app/` — the program around the library: files, the terminal, audio output,
  drawing, and the floating-point parts (timing, accuracy, colors, mixing).
- `tests/` — tests of the library.

Laws that relate several functions stand in `src/` as public proof functions
named `lemma_*`, next to the functions they speak of.
