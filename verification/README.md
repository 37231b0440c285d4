# clipball

The logic of ClipBall, a local clipboard history tool shown as a floating ball
that opens into a history panel, written in Verus with its contracts proved.

- `src/text.rs`: trimming (Unicode whitespace), prefixes, text equality,
  decimal and hexadecimal formatting.
- `src/history.rs`: history entries, their classification, ids, hashes and
  relative time labels; adding with de-duplication and a size cap, deleting,
  clearing and listing.
- `src/settings.rs`: settings, their defaults and the accepted history sizes.
- `src/window.rs`: ball/panel mode and window geometry.
- `src/monitor.rs`: the clipboard watcher's step.
- `src/commands.rs`: the decisions of the app's commands, tray menu and shortcuts.
- `app/`: the Tauri program around the library (windows, tray, clipboard,
  key simulation, JSON files).
