# pot_gtk

The logic of a Linux desktop translator, verified with Verus: the settings store
and its secret fields, the translation, speech, recognition and collection
services (the requests they send and how their answers are read), the plugin
manager and plugin archives, global hotkeys, the local HTTP API, the translation
history, screenshots, the updater, and the state of the windows.

## Layout

- `src/` — the verified library. Each module states its behaviour in `requires` /
  `ensures` over spec functions; laws across functions are public proof functions
  named `law_*`. Calls into outside crates (SQLite, hashing, base64, URL encoding,
  language detection, zip archives, image cropping, randomness) stand behind small
  trusted functions whose contracts say what the crate's documentation and source
  show.
- `tests/` — tests of the library on concrete values, run with the real outside
  crates.
- `app/` — a command-line front end: reading and writing files, the keyring, the
  network, the local HTTP server and the event loop, driven by the library.
