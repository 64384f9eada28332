# illutag_core

The verified core of the illuTag image library, written in Verus.

- `src/` holds the library: tag dictionary parsing (CSV and spreadsheet rows),
  tag and search text normalisation, Windows path rewriting for data moves and
  backups, synced folder trees, folder rules, export and reference file naming,
  paging, worker and progress state machines, and the window restore rules.
  Verus proves every function there against its contract; the functions that
  read the clock state nothing of the time they read. The `law_*` proof
  functions state properties that span several calls. Path functions
  take the host's path rules (Windows or Unix) as an argument.
- `tests/` exercises the library on concrete values.
- `app/` is a small command-line program around the library: it reads files,
  walks folders, opens workbooks, moves files to the recycle bin and keeps the
  portable configuration, and hands what it read to the library.
