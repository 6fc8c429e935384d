# foobar1974

The core of a foobar2000-inspired music player for Linux, written in Verus
and proved against its contracts.

- `src/` is the verified library:
  - `player`: the play queue — enqueue, remove, move, clear, shuffle order,
    repeat modes, and the choice of the next track; laws on shuffle traversal,
    repeat modes and moving entries.
  - `library`: the scanner's bookkeeping — which files are audio, what each
    file is recorded as, progress reports, stale tracks.
  - `db`: the database schema and the search statements (whitelisted sort
    columns, bound search text).
  - `state`: the list of library folders.
  - `vlc`: the command lines sent to VLC (file URIs, seek, volume).
  - `ui`: row names that carry track ids, summaries and field values.
  - `text`: whitespace, ASCII case and decimal rendering.
- `app/` is the GTK program around it: the window, the VLC process, the
  SQLite connection, the folder walk, the settings file, and the ReplayGain
  arithmetic, which is floating point.
- `tests/` exercises the library, including searches against an in-memory
  SQLite database built from the library's schema.
