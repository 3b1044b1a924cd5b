# browser_core

The core of an AI-agent-first web browser, written in Verus: the logic
is verified against its contracts, the I/O around it is plain Rust.

## Layout

- `src/` — the verified library.
  - Actions and results (`actions`), page snapshots and their agent text
    (`dom`, `html_snapshot`), engine choice and capabilities (`engine`).
  - The decisions of each engine: DevTools-protocol targets, frames and
    action exchanges (`cdp`, `cdp_actions`, `js`); chromiumoxide tabs and
    the session's tab table (`tab_actions`, `session`); the script-running
    headless engine (`sevro_actions`); the HTTP-only engine's state
    machine (`native`, `native_session`).
  - Playbooks with variable resolution (`playbook`), the plugin registry
    (`plugins`), submission verification (`verify`), applicant-tracking
    detection (`ats`), network capture, endpoint discovery with body schemas and its
    summary (`network`, `json_schema`), per-domain rate limiting (`rate_limit`), adaptive
    selectors (`selectors`), stealth evasion scripts, canvas noise,
    the scroll-step type and fingerprints (`evasions`, `canvas`,
    `stealth`, `fingerprint`), vision backends (`vision`), TLS profiles (`tls`),
    Tor circuits and DNS-over-HTTPS (`tor`), telemetry (`telemetry`),
    swarm bookkeeping (`swarm`), configuration (`config`), text helpers
    and string-keyed maps (`text`, `assoc`), the TLS stack in use
    (`stealth_http`).
  - Calls into `url`, `regex`, `scraper`, `serde_json`, `uuid`, `rand`,
    `chrono` and `reqwest` go through small trusted wrappers whose
    contracts are stated next to them.
- `app/` — the runtime around the library: WebSocket and HTTP transport,
  the chromiumoxide driver, async tasks and timers, YAML and JSON
  documents, and the heuristics that compute in floating point.
- `tests/` — tests of the library on concrete values.
