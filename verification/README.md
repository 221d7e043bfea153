# pake

Window rules of a desktop shell that wraps web apps, verified with Verus.

- `src/config.rs` — the `pake.json` model: window labels (absent or empty
  labels mean `pake`), label validation, lookup, route templates and route
  instance labels (`live`, `live-1`, …), and resolution of a label to a window.
- `src/window.rs` — the webview target of a window (`web` URLs, `local`
  paths), the proxy browser argument, and the window state: popup labels
  (`pake-N`), per-template instance counters, round robin over templates,
  and the plan for each kind of window that can be opened.
- `src/builder.rs` — builder settings: title, data directory name, browser
  arguments per platform, proxy, popup titles, download file names.
- `src/web_url.rs` — URLs as parsed by the `url` crate.
- `src/platform.rs`, `src/text.rs` — per-platform values; string helpers.
- `src/laws.rs` — properties across operations (validated labels find their
  window, route instances resolve, generated labels are distinct, …).
- `app/` — serde copies of the configuration types and the tauri glue that
  builds the planned windows.
