# faster-chant

A helper for the game 300英雄: it watches the game window, recognises the
hero and skin on the confirmation page, follows the kills / deaths / assists
line during a game, and sends the hero's lines to the chat when something
happens.

## Layout

- `src/` is the library, written in Verus and verified:
  - `text.rs`, `order.rs`: characters, trimming, numbers in text, the
    string order used for sorting.
  - `kda.rs`, `engine/kda.rs`: reading the score line and turning two
    readings into an event.
  - `scheme.rs`, `defaults.rs`: hero schemes, the scheme manager and the
    built-in schemes.
  - `search.rs`, `ui/search.rs`: the search lists and the state of the two
    search popups, with what each key does and what each line shows.
  - `calibration.rs`, `page.rs`: which scheme is active and what a page
    change asks for.
  - `sender.rs`: cutting long messages and picking a line.
  - `window.rs`, `config.rs`: pixel sampling and the blue-gem test.
  - `editor.rs`: the hero editor's state and its edits.
  - `logger.rs`, `ocr.rs`, `ui/tray.rs`: log file names and their expiry,
    joining recognised words, tray menu commands.
- `app/` is the Windows program around it: window capture, OCR, keyboard
  and clipboard, the popup windows and the tray icon, configuration and
  scheme files, logging.
- `tests/` runs the library on concrete values.

## Notes

- Search matches the lower-cased query in hero, skin and display names and
  in the pinyin initials of hero and skin names ("fcjx" finds 绯村剑心).
  The initials come from the `pinyin` crate: the first letter of the plain
  pinyin of each character that has one; other characters are skipped.
- `SchemeManager` keeps its schemes and its hero index in `Vec`s whose keys
  are distinct (a type invariant) rather than in `HashMap`s: vstd models a
  `HashMap` only for keys whose hashing it knows, and with `String` keys
  nothing about `insert` or `get` can be proved.
- The program has no hero editor or settings window: the crate does not
  depend on an egui toolkit. The editor's state and every edit it makes are
  in `editor.rs`; schemes are saved through `app/store.rs`.
