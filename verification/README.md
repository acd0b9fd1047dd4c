# mock_api

A configurable HTTP mock server whose core is verified with Verus: a JSON
configuration lists routes (match rules and actions); each request is matched
against the routes in priority order and answered with a canned response or
forwarded upstream, with optional header, query, status, body and
JSON-Pointer transforms.

## Layout

- `src/` — the verified library.
  - `matcher/` — method, path, header, query and composite matchers, with
    their scores.
  - `transform/` — templates and the request/response transforms.
  - `engine/` — compilation of the configuration into prioritized rules, and
    the decision for a request (with laws: determinism, first match wins,
    rule order, the default 404).
  - `config/` — the configuration model and its check (issues by code and
    path).
  - `http/` — request conversion, body classification, headers passed on
    between hops, and the HTTP-layer errors.
  - `runtime.rs` — the runtime's lifecycle as a state machine (start, reload,
    stop).
  - `cli/` — command settings, header masking, the terminal view's state, its
    key handling and the texts and colors of its widgets.
  - `tls.rs` — the certificate chain and private key of a JKS keystore's
    first private key entry, with the calls into `jks` behind trusted
    wrappers.
  - `json.rs`, `text.rs`, `strmap.rs`, `pairs.rs` — JSON values, string
    helpers and ordered string maps, with the calls into `serde_json`,
    `jsonptr`, `url` and `form_urlencoded` behind small trusted wrappers.
- `tests/` — tests of the library.
- `app/` — the program around it: command line (`clap`), configuration
  parsing and schema (`serde`, `schemars`), the HTTP server (`axum`), the
  upstream client (`reqwest`), the keystore file read and the rustls
  configuration for HTTPS, the file watcher
  (`notify`) and the terminal view (`ratatui`, `crossterm`).
