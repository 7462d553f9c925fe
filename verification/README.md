# opencode_desktop

The core of the OpenCode desktop shell, written in Verus. Every function in
`src/` carries a contract, and Verus proves each of them except the small
trusted functions marked `#[verifier::external_body]` (one call each into
`std`, `rand` or `dirs`, with `uninterp` names for two results), whose
contracts restate what those libraries document and are not proved.

- `src/config.rs`: the configuration types and their defaults, the
  configuration manager, and the application directories.
- `src/state.rs`: the state behind the desktop commands (sidecar address and
  credentials, window preferences, deep links, updater, WSL servers and the
  key-value stores), with the laws of the stores.
- `src/commands.rs`: what the commands decide: tokens and passwords, window
  requests, application lookup, file pickers, opening paths, the display
  backend, menu actions and the WSL commands.
- `src/terminal.rs`: terminal session bookkeeping and the choice of shell.
- `src/desktop.rs`: start-up environment, application directories and the
  answers to window events.
- `src/assoc.rs`, `src/text.rs`: an insertion-ordered string map and the
  string helpers the rest builds on.

The stores, the WSL servers and the terminal sessions are keyed by strings.
vstd specifies `HashMap` lookups only for key types that obey its key model,
which it establishes for integers and `bool` but not for `String` (it would
have to be assumed), so with `String` keys nothing about a lookup could be
proved. `StrMap` holds the entries in a vector instead, with the invariant
that no key occurs twice, and every operation is proved against a `Map`
view. The environment of a terminal session stays a `HashMap`: it is only
carried through, never looked up.

`app/` is the Tauri program around the library: it performs the window,
dialog, process, file and pseudo-terminal work and hands the library plain
values. `tests/` runs the library on concrete values.
