# Gallery Sorter

Organises photos and videos into a folder tree by capture time, from the
command line or an interactive terminal interface. Capture times come from
EXIF, video container metadata and the file system; identical files are
kept once; names can be unified to standard camera names
(`IMG_`/`MVIMG_`/`VID_` + `YYYYMMDD_HHMMSS`).

## Layout

- `src/` — the library, written in Verus, with contracts proved by Verus.
  It decides what happens to each file; `app/` gathers what those
  decisions need (the files found, their times, contents and hashes, what
  exists on disk) and carries out the steps they return:
  - `config.rs` — the configuration, its defaults and the option types;
  - `cli.rs` — applying command-line flags to a configuration, config-file
    lookup, validation, log paths, progress text;
  - `time.rs` — timestamps, EXIF and video date parsing, the fallback
    order of time sources;
  - `process.rs` — which copy of identical files is kept, destination
    paths, conflict resolution, directory exclusion, the per-file state
    machine, the incremental watermark;
  - `rename.rs` — standard camera names, motion-photo detection, planning
    and settling renames;
  - `path.rs`, `text.rs` — path and string helpers over character
    sequences;
  - `os.rs` — privilege checks, elevated command lines, FILETIME ticks;
  - `tui/` — the wizard's state, its transition function and the screens'
    decisions.
- `app/` — the program around the library: argument parsing, reading and
  writing files, hashing, threads, the terminal interface's drawing and
  event loop, and an in-place renaming run. It performs the steps the
  library asks for and hands the results back.
- `tests/` — tests of the library.

Calls into chrono, kamadak-exif, regex and nix are made from `src/` through
small trusted wrappers whose contracts name what those crates return.
