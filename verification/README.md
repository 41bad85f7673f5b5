# jc_grid_manager

The verified core of JC Grid Manager, a keyboard-driven window manager (Rectangle-style
halves, thirds, corners, fourths, sixths, sizing and display moves) for macOS and Windows.

- `src/` is the library, verified with Verus: the action table (`actions`), exact
  fraction geometry and display selection (`geometry`), the snap state machine that cycles
  sizes and remembers the restore baseline (`state`), default shortcut binds and chord
  identity (`shortcuts`), user overrides (`overrides`), the configuration rules and the
  decisions of every settings command (`config`), and the window-shim interface
  (`platform`). Coordinates are whole device units; sizing tunables are parts per million
  of the work area.
- User overrides are kept by `Overrides`, a vector of `(action id, bind)` pairs whose keys
  are unique (its type invariant), rather than a `BTreeMap<String, Bind>`: with string keys,
  vstd's map specifications give no view that the contracts could use. It keeps every id a
  hand-edited file holds, known or not, and its view is the map from id to bind.
- Every `Bind` names its key by the standard name of a key the shortcut plugin recognizes
  (a type invariant), as the plugin's own key type would.
- `app/` is the Tauri application around it: global shortcuts, the macOS and Windows window
  shims, the JSON config file, the settings commands and the tray menu.
- `tests/` exercises the library on concrete values.
