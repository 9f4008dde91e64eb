# nexus_mod_manager

The verified core of a cross-game Nexus Mods manager, written in Verus.

- `src/` is the library. Every function in it is verified against its
  `requires`/`ensures`; the few calls into std and outside crates (the clock,
  the platform directories, `Path` parsing, `urlencoding`, `serde_json`) go
  through small trusted wrappers whose contracts say what those calls
  promise. The library covers the game presets, the paths of the manager's
  files, mod profiles, save slots and backups, game launching and logs,
  crash-log analysis, the download flow and its progress protocol, the
  translation engines, and the text the command-line tool prints.
- `tests/` runs the library on concrete values.
- `app/` is the `nmm` command-line program around the library: it reads the
  disk, the network and child processes, and prints what the library decides.

