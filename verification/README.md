# lowfi

A tiny terminal player that plays lofi from track lists, with its logic
verified by Verus.

## Layout

- `src/` is the verified library. Each public function states what it
  returns or changes in `requires`/`ensures` over spec functions and views,
  and Verus proves it.
  - `tracks`: track lists (`list`), track names (`format`), bookmarks of
    list entries (`bookmark`), the Bandcamp cache with its gzip form and
    update decisions (`cache`) and id hashing (`utils`).
  - `bookmark`: the bookmark list kept in memory and its file text.
  - `bandcamp`: discography and album pages read into items and tracks;
    `dom` and `pattern` hold the calls into `scraper`, `regex` and
    `html-escape`.
  - `scrapers`: the page lists of the Lofi Girl and Chillhop sources.
  - `player`, `ui`, `downloader`, `volume`, `message`, `args`: the player's
    decisions, the frame that is drawn and its ANSI styling, key bindings,
    terminal setup and teardown, buffering and the stored volume.
  - `text`: string operations with their specifications.
- `app/` is the program around the library: command line, terminal, audio,
  network and file I/O, and JSON.
- `tests/` runs the library on concrete inputs.

## Laws

Besides the contracts, the library proves properties that span calls, as
public proof functions whose names start with `law_`: bookmarking twice
changes nothing, a list entry splits back into the track it was written
for, the id hash ignores the order of items, terminal cleanup undoes setup,
a saved volume reads back unchanged, no URL occurs twice among the parsed
items of a discography, and more.
