# photondb-reclaim

Space reclaiming for a log-structured page store, verified with Verus.

The store writes pages to page files and never changes them in place. This crate
decides when the space of dead pages is worth reclaiming, which files to reclaim
and how, and keeps the books while it happens.

- `src/` is the library. It does no input or output. A job hands out what to do
  next and is told what came of it. Every function has a contract, and the
  properties that span several functions are stated as proof functions whose names
  start with `law_`.
- `tests/` runs the library on concrete files.
- `app/` is the background task around the library: it reads and writes files,
  waits for versions, and writes the log.
