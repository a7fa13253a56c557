# typocode

A terminal typing game that uses source code as practice text: it loads a
file, optionally strips its comments, paginates it to the terminal, and
checks each keystroke strictly against the expected character, with a live
timer, accuracy and WPM, and a summary when the run is complete.

The game's logic is a library verified with Verus; the binary around it
only does what cannot be verified: argument parsing, reading the file,
the terminal loop and drawing.

## Layout

- `src/` — the verified library.
  - `file` turns raw text into the typing challenge (trimming, tab
    expansion, typographic normalisation, optional comment stripping).
  - `comments` is a data-driven comment stripper: a language registry,
    the built-in languages, and the two-pass stripping engine.
  - `text` holds pages and cells, pagination against a row budget, and
    character wrapping with its line-number gutter labels.
  - `update` is the typing state machine (strict match, extras,
    backspace, enter, restart); `app` wires it to pagination, the
    stopwatch and the keystroke counters.
  - `stats` and `timer` count keystrokes and time the run.
  - `widgets` and `view` compute what the screen shows: body rows,
    cursor and extras positions, gutter text, frame chrome, footer and
    summary panel.
- `app/` — the `typocode` binary: `clap` command line, `color-eyre`
  error reporting, optional `tracing` logging, file loading, the
  `crossterm` event loop and `ratatui` drawing.
- `tests/` — tests of the library.

Contracts are stated over spec functions in each module; the properties
that relate several operations are public `law_*` proof functions next
to the code they are about.
