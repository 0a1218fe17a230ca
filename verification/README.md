# bili_list_player

The logic of a desktop playlist player for Bilibili favourite/medialist pages,
written in Verus with its behaviour stated as contracts and proved.

## Layout

- `src/` – the verified library
  - `text` – character-level string helpers (search, trimming, case folding)
  - `parser` – list-URL validation, video-id normalisation, list-page parsing, de-duplication
  - `html` – anchor scanning, attribute extraction, tag stripping, URL resolution
  - `webview` – host checks, page access state, list-page comparison, script builders
  - `scripts` – the JavaScript templates injected into the embedded page
  - `events` – validation and mapping of playback events reported by the page
  - `bridge` – the embedded-page state machine (page loads, navigation, pending commands)
  - `capture` – routing of captured list HTML
  - `history` – event ids, storage file names, history rotation
  - `tray` – tray menu commands
  - `laws` – properties that span several functions, proved
- `tests/` – tests run against the compiled library
- `app/` – the desktop shell: window, tray, file storage, JSON payloads
