# twitchy

A Twitch chat bot with a terminal console, whose decision logic is a library verified with
Verus.

- `src/` — the verified library:
  - `unicode.rs`: characters, UTF-8 widths, byte offsets of character positions (`byte_index`,
    `clamp_cursor`) and the lemmas that relate them to `vstd`'s UTF-8 encoding.
  - `text.rs`: trimming, splitting at white space, searching, joining, decimal notation.
  - `emotes.rs`: `fix_emote_spacing`, with its scan stated as `spacing_pass` / `spacing_all`.
  - `editor.rs`: the console's input line (typing, deleting, moving the cursor).
  - `console.rs`: console commands (`help`, `list`, `start`, `stop`), the key handler and
    the log window.
  - `features.rs`: the `Feature` trait, the automatic stream category and its worker's steps.
  - `config.rs`, `commands.rs`, `bot.rs`, `json.rs`, `twitch.rs`: settings, chat commands,
    message routing, JSON access, and what the bot asks web services and makes of the answers.
- `app/` — the program: terminal, network, threads and the Win32 call, driving the library.
- `tests/` — tests of the library on concrete values.
