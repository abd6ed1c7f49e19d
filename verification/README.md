# vvitools_core

The verified core of VviTools, a plugin-based desktop launcher with a
clipboard history. The rules of the application are written in Verus and
proved against their contracts; the desktop shell around them is ordinary
Rust.

## Layout

- `src/` — the library, verified by Verus:
  - `plugin.rs` — plugin manifests and their validation, command search and
    ranking, permissions of result actions, which plugins are available,
    marketplace installs, builtin commands, how a command is carried out.
  - `clipboard.rs` — the clipboard history: recording copies, retention
    and capacity pruning, favorites, deletion, entry ids and previews, and
    the watcher's tick (what to read, what to record).
  - `archive.rs` — reading a plugin package's zip archive and the writes
    that unpack it.
  - `pixels.rs` — decoding saved clipboard images and checking image
    sizes against their bytes.
  - `updater.rs` — the update protocol (check, install, restart), its
    refusals and messages, download progress.
  - `release.rs` — version numbers and their order, release tags, the
    answer to a release-feed check.
  - `settings.rs` — dock visibility, the application to paste back into,
    the paste script, the accessibility permission status.
  - `paths.rs`, `window.rs` — data paths, window behaviour, the tray icon.
  - `text.rs`, `digest.rs`, `instant.rs`, `ranking.rs`, `subsequence.rs` —
    strings, SHA-256 digests in hexadecimal, UTC instants, stable ranking,
    and the lemmas the rest builds on.
- `tests/` — tests of the library on concrete values.
- `app/` — the Tauri application: commands, file and network I/O, the
  system clipboard, window placement and the updater plugin, calling the
  library for every decision.

Calls into `sha2`, `chrono`, `zip`, `image`, `serde_json` and a few `std`
functions stand behind small trusted wrappers whose contracts are stated
(or whose results are named) in their doc comments.
