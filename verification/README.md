# centerpiece

A launcher ("omnibox search") whose core is verified with Verus.

- `src/` is the verified library: the entry model, the launcher's state
  machine (selection, plugin list, message handling, key handling, layout
  of the list), fuzzy search and ordering, the settings and their defaults,
  and the data logic of every plugin (applications, browser bookmarks,
  history and tabs, git repositories, gitmoji, clock, system, windows of
  sway and niri, music player, battery, processor, memory, disks, wifi),
  the groups of the desktop front end, the index of git repositories and
  the lock file's contents. `src/launcher/laws.rs` states what holds of the
  launcher over any state and any sequence of steps.
- `app/` is the program around it: command line, configuration file, lock
  file, reading files, databases, sockets and other programs for the
  plugins, running the activated entries, the plugin threads, and a
  terminal front end for the launcher window.
- `tests/` run the library on concrete values.
