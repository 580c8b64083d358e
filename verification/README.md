# ClearLane core, verified

The state and decisions of the ClearLane browser shell, written in Verus and proved
against their contracts. The Win32 window, the Chromium (CEF) engine and the SQLite
store live in `app/`, which calls into the library.

Layout of `src/`:

- `browser.rs` — tabs, their order, the active tab; the tab-list invariant and its laws.
- `omnibox.rs` — turning typed text into the address to open (URL, host guess, or search).
- `weburl.rs` — what the library reads of a URL parsed by the `url` crate.
- `shields.rs` — request blocking through the `adblock` engine, per-site overrides and
  per-tab blocked counts.
- `persistence.rs` — the saved session and the settings rows it is stored as; save/load
  round trip.
- `session.rs` — start-up restore plan, session snapshot, performance-run tabs, and the
  follow-up when a tab's browser closes.
- `view.rs` — what the window chrome shows for a browser state.
- `layout.rs` — geometry of the toolbar, sidebar and page area.
- `commands.rs` — which command a native control notification stands for.
- `pages.rs` — the browser's own error and crash pages as `data:` URLs.
- `process.rs` — how a process goes on after the engine looked at its command line.
- `text.rs` — character and string operations with their models.

`tests/` runs the library on concrete values.
