# mytranslator

The verified core of a desktop translation tool: a selection is translated
when the copy shortcut is pressed twice within 400 ms.

- `src/` — the library, verified with Verus:
  - `hotkey` — the double-copy detector (a state machine over monotonic
    nanosecond timestamps), the mapping of listener events to detector inputs,
    the listener status, and the choice of clipboard text to translate;
  - `engines` — the engine registry, the Google and Gemini request plans,
    the decisions on HTTP statuses, and the reading of response bodies;
  - `json` — the JSON documents the engines read;
  - `update` — version comparison and the reading of release descriptions;
  - `settings`, `commands` — settings defaults, API-key handling and the
    inputs of the application's commands.
- `tests/` — tests of the library.
- `app/` — the Tauri application: HTTP, keyboard listeners, clipboard,
  credential store, tray and windows.
