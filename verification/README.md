# wsh

The verified core of `wsh`, a server that hosts terminal sessions and lets
agents and browsers observe and drive them over HTTP and WebSocket, and
federates several such servers.

## Layout

- `src/` — the library, verified with Verus:
  - `input/` — key parsing, input-routing mode with capture ownership,
    focus tracking, input events;
  - `federation/` — backend token cascade, hostname and address
    validation, the backend registry, IP access control, sanitizing of
    backend responses, the federation manager and the decisions of a
    backend connection (health, backoff, self-loop detection);
  - `api/` — API errors, Bearer/ticket authentication, single-use tickets,
    WebSocket origin checks, WebSocket envelopes and parameters, request
    limits, keepalive, resynchronisation frames, proxy targets, transports,
    and the step functions of the WebSocket loops: a session's JSON socket
    (`ws_json`), the server-level multiplexed socket (`server_ws`) and the
    method dispatcher on a session's control state (`dispatch`, including
    the decoding of `send_input` data);
  - `activity.rs` (quiescence decisions), `lifecycle.rs` (when an ephemeral
    server exits), `client.rs` (scroll-region changes of a local client),
    `cli.rs` (token choice, the requests of the subcommands and
    their reports), `config.rs`,
    `json.rs` and `text.rs` (shared data and string helpers).
- `tests/` — tests of the library's public functions.
- `app/` — the server binary: configuration files, HTTP routes and
  middleware, the federation connections and the shared runtime state.
