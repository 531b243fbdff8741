# parkplatz

Parkplatz parks a one-line note together with the current git working context
(repository, branch, commit, changed files) and reminds the developer of it
when they switch back to that branch.

- `src/` is the library, verified with Verus: where data lives (`config`),
  the note store operations (`db`, `db_manage`), the captured git context
  (`git_context`), export file naming (`export`), the notifier command lines
  with literal-safe escaping (`notification`), and every decision of the
  `.git/HEAD` watcher (`watcher`): parsing `HEAD` and `.git` files, the
  `HEAD` table, which events are branch switches, and how the watch list is
  rebuilt. `paths` and `text` hold the path and text handling they share.
- `app/` is the Tauri tray application around it: commands, tray icon,
  global hotkey, file and database I/O, the watcher thread and JSON via serde.
- `tests/` exercises the library against the real `git2`, `rusqlite`, `dirs`
  and `chrono`.
