# goose_core

Verified core logic of the goose / OpenDuck agent tooling, written in Verus.

- `src/` — the library. Every function carries a `requires`/`ensures`
  contract that Verus proves; the `law_*` proof functions state properties
  that relate several functions (read-after-write of the `_meta` entry, menu
  cycling inverses, risk-check verdicts, migration safety, …).
  - `text`, `json`, `pattern`: character-level text operations, a JSON
    document model with `serde_json`'s parse (a named result) and string
    escaping (stated), and named results of the `regex` crate.
  - `scrape`, `market_json`, `market_text`, `browser`: market extraction from
    captured pages and the decisions of a browser check-and-scrape.
  - `completion`, `resume`: slash-command completion, hints, tip menu, and
    the `/resume` session list.
  - `config_env`, `paths`, `migration`, `brand_meta`: configuration lookups,
    directory choices, legacy-directory migration steps, ACP `_meta` entries.
  - `polymarket`, `gamma`, `grok`: request URLs, order gates and risk
    verdicts, market summary fields, and the Grok Build CLI helpers.
- `app/` — ordinary Rust around the library: the Chrome session
  (chromiumoxide), HTTP clients (reqwest), MCP servers (rmcp), the line editor
  (rustyline, console), the environment and the filesystem, and everything
  that computes with floating-point numbers.
- `tests/` — tests of the library's public functions.

JSON texts are parsed inside the library, through `serde_json`. What only
floating-point arithmetic can tell (whether a text reads as a decimal price,
how a number prints as `f64`) is gathered by the caller into a
`json::TextFacts` table and handed to the extraction functions; so are the
platform's path rules (whether a root is absolute, the main separator). The
environment is read by the caller under the names the library asks for, so
that the platform decides how a name matches a variable.
