# SwitchYard

SwitchYard is a terminal chat client for local model providers (Ollama and
llama.cpp). This crate is its verified core, written in Verus, with a thin
runner around it.

## Layout

- `src/` — the library, every function verified by Verus:
  - `crypto/` — the vault: key derivation (Argon2id), AES-256-GCM sealing,
    and the vault's byte format with its header (`storage.rs`);
  - `unlock.rs` — creating a vault and unlocking it with a password;
  - `key_cache.rs` — the text form of the short-lived key cache and its
    expiry;
  - `runtime.rs` — where the state directory and its files are;
  - `provider.rs` — provider selection, endpoints, messages sent, and the
    steps of a streamed reply and the events it reports;
  - `command.rs` — the slash commands;
  - `application.rs` — the application state and how keys and provider
    events change it, the menus, and the layout arithmetic;
  - `log.rs` — the log line buffer and the colouring of log lines;
  - `user.rs` — the password rules;
  - `domain.rs`, `text.rs` — shared types and string helpers.
- `tests/` — tests run against the compiled library.
- `app/` — the program: terminal drawing, HTTP, keyring, files, prompts and
  logging set-up. It asks the library what keys, commands and provider
  events do, how the screen is laid out and scrolled, and how a streamed
  reply proceeds; what stays in it is reading and writing, parsing JSON
  into the library's values, and checking the HTTP status of a model
  listing.
