# SmartHub core

The logic of SmartHub, a desktop productivity hub (Smart Clipboard, Text
Time Machine, Workspace Modes, File Declutterer, licensing), written in
Verus. Every public function of `src/` carries a contract. The functions with a body
are proved against theirs; the few that call an outside crate or std (the
cipher and its random bytes, Base64, SHA-256, BLAKE3, UUIDs, the clock, `String::push`,
`String::from_utf8`) are marked `#[verifier::external_body]`, and their
contracts are trusted, each documented above the function.

- `src/clipboard.rs` — the clipboard watcher's decisions, item kinds,
  previews, history rows, page titles, trimming.
- `src/text_saver.rs` — which focused-field captures become snapshots.
- `src/workspace.rs` — built-in profiles, listing, saving, action steps and
  warnings.
- `src/declutter.rs` — the folder scan report (duplicates, installers, large
  archives, stale files, categories).
- `src/licensing.rs` — tiers, the 7-day offline grace window, activation and
  validation outcomes, the stored license state.
- `src/crypto.rs` — AES-256-GCM encryption at rest and the vaulted data key.
- `src/db.rs`, `src/text.rs`, `src/sort.rs`, `src/hotkey.rs` — records,
  text helpers, stable ordering, the start-up hotkey.

Laws that span several functions are public proof functions named
`lemma_*` next to the functions they speak of.

`app/` is the unverified shell: SQLite storage, the OS clipboard, the
credential store, HTTP, the folder walk and the background loops.
