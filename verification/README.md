# ttry

End-to-end tests for terminal user interfaces: a program runs in a
pseudo-terminal, keys are sent to it, what it draws is reconstructed as a
screen, and assertions and snapshots look at that screen.

The library under `src/` is verified with Verus. It holds the terminal, the
locators, the assertions, the snapshots, the keyboard, and the decisions of
sessions, runs and configurations, as functions on plain values. The program
under `app/` does the input and output around it: processes, threads, files and
the clock.

## Layout

- `model`: what a screen is, and what every terminal operation does to it.
- `buffer`, `screen`, `terminal`, `parser`, `event`: the terminal. `upkeep`,
  `glyphs` and `screen_laws` hold what every operation keeps and what holds of
  screens.
- `locator`, `pattern`: finding text; `width`: display columns.
- `keyboard`: key expressions and the bytes they send.
- `expect`: assertions, decided for one look at a time.
- `process`, `session`, `environment`, `path`: starting, watching and closing a
  process.
- `snapshot`, `difference`: snapshot files and their differences.
- `runner`, `report`, `config`, `configured`: suites of tests.
- `text`, `time`, `error`: what the others need.

Waiting is written as steps. A function such as `Screen::wait_for_change` or
`LocatorExpect::to_be_visible` takes what was observed and the time that has
passed, and returns whether the wait is over or for how long to go on. The
caller waits and looks again.

## What is trusted

The widths of `unicode-width`, the events of `vte`, the matches of `regex`, the
line differences of `similar`, and a few formatting functions of the standard
library are taken from these crates. Each such call stands behind a function
marked `external_body`, and its doc comment says what is relied on.
