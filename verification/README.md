# lewrep

A parallel grep-style search tool whose decision and formatting logic is verified with Verus.

## Layout

- `src/` — the verified library.
  - `text.rs`: character-level helpers (decimal rendering, trimming, substring search, JSON escaping, `usize` parsing) with their specifications.
  - `colour.rs`: ANSI colour and style escape sequences.
  - `cli.rs`: reading the command line into a search configuration and deciding what a
    run does (help, manual page, time, piped input, search, or an error).
  - `walk.rs`: how the directory walk is set up, which files are searched, binary sniffing,
    and what is done with each file (skip, print whole, or search).
  - `report.rs`: what each match, context line and finished file prints in every output
    mode (plain, `-n`, `-h`, `-o`, `-l`, `-c`, `-j`, `-T`, `-X`, `-d`), plus the banners,
    `--cat` lines and piped-input lines.
  - `timo.rs`: a date and time in a named zone (via `chrono` / `chrono-tz`), its season,
    month arithmetic and moon phase.
- `tests/` — tests of the library on concrete values.
- `app/main.rs` — the program: argument and terminal detection, the directory walk
  (`ignore`), parallel file search (`rayon`, `grep-searcher`, `grep-regex`) and printing.
