# itsm-manager

The logic of a desktop tool for SIE ITSM tickets, verified with Verus, and
the Tauri application around it.

- `src/` — the verified library (`itsm_manager`):
  - `json` — the JSON values the library reads and builds, with their model;
  - `text` — small string operations with contracts (trim, decimal writing,
    prefix and substring tests);
  - `api` — every ITSM endpoint as an `ApiRequest` (address, body, error
    prefix), the reading of answers, and the classification of failures;
  - `config` — the configuration: defaults, clamping, normalization, pause
    and resume, per-view page sizes;
  - `cache` — cache file names and the page-and-size rule of a cache hit;
  - `scheduler` — the refresh loop's decisions (counting failures, alerting,
    stopping, waiting);
  - `commands` — the decisions behind the desktop commands (credential
    migration, listings, links, token checks, updates, attachments);
  - `login` — the login page's callbacks, percent-decoding, the injected
    scripts;
  - `mcp` — argument checks and answers of the local MCP tools, and the
    back-fill form;
  - `state` — the shared login token and the clock.
- `tests/` — tests of the library.
- `app/` — the desktop application (windows, tray, HTTP, files, key chain,
  MCP server), which performs what the library decides.

HTTP, files, windows and the MCP transport stay in `app/`; the library
takes and returns plain values.
