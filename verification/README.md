# translator

The verified core of a desktop translation helper (a Tauri application that
translates selected or copied text through LM Studio and other providers).

- `src/` is the library, verified with Verus:
  - `text.rs`: character-level helpers (trimming, slash stripping, substring
    search, left-to-right replacement, control-character cleaning) with their
    specifications.
  - `hotkey.rs`: parsing of hotkey descriptions such as `Ctrl+Alt+C`.
  - `json.rs`: the JSON document model the library reads, and serde_json's
    parsing and pretty-printing.
  - `lm_studio.rs`: the LM Studio provider: endpoint, chat request, reading
    of replies.
  - `url_query.rs`: the `api-version` query parameter of an endpoint.
  - `desktop.rs`: theme, copy keystrokes, cursor, floating window placement,
    shortcut and window-event decisions.
  - `commands.rs`: key checks, model listing, translate/save/clipboard answers.
- `app/` is the Tauri shell: commands, HTTP requests, clipboard, windows and
  the Windows API calls.
- `tests/` runs the library on concrete values.
