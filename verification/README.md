# typetty

A terminal typing test (`wpm`), with its logic verified by Verus.

- `src/` is the verified library:
  - `engine` — one test: words, input, scoring, the clock (nanosecond
    moments), the counters behind speed and accuracy;
  - `app` — the session state machine: screens, keys, settings, restarts;
  - `cli` — validation of the command-line lengths;
  - `model` — modes, offered lengths, the saved configuration;
  - `words` — random word lists drawn in rounds over the word list, without
    a word twice in a row;
  - `layout` — centring, word wrapping and per-character marks of the test screen;
  - `store` — what to do with saved files, their backup and temporary names,
    the bounded history and the running totals;
  - `text` — decimal notation and character helpers;
  - `laws` — properties across operations, proved.
- `app/` is the program around it: argument parsing, the terminal, files,
  and the floating-point speeds and personal bests.
- `tests/` exercise the library.
