# piggytrans

The verified core of a small desktop translator that translates the text selected in
any application.

- `src/` is the library, verified with Verus:
  - `text` — characters, trimming, line endings, decimal and hex text;
  - `selection` — normalising a selection, merging the accessibility reading with a
    simulated copy, the step machine that reads a selection, clipboard change
    detection, UTF-16 ranges;
  - `settings` — services and their settings, defaults, migration of the legacy
    single settings file;
  - `translate` — target language, request preparation (signature, query address,
    prompts), reading the services' replies;
  - `overlay` — what the overlay window is told, and how windows answer events;
  - `field` — what a JSON object holds under one key.
- `app/` is the desktop application around it: windows, tray, hotkey, settings
  files, HTTP, the accessibility API and key events.
- `tests/` runs the library on concrete values.
