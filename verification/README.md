# fhist

A small tool that tracks the history of files on the local machine: `fhist add`,
`remove`, `list`, `log [--verbose]`, `diff [--from] [--to]` and
`rollback [--snapshot]`. A background watcher records a snapshot each time a
tracked file is created or modified, skipping content identical to the last one
recorded.

- `src/` is the library, verified with Verus: records and their constructors,
  the storage ports, the use cases (which snapshots a diff compares, which one
  a rollback restores, and their refusals), UUID text, the text the command
  line prints, path resolution, and the watcher's decisions.
- `app/` is the program around it: the command-line parser, the SQLite
  repositories, the daemon, the file-system watcher loop and the printing.
- `tests/` runs the library on concrete values.
