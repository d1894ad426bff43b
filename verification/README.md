# plnk

A client for the [Planka](https://planka.app) kanban server: an SDK core and
a live terminal explorer (`plnk-tui`) that follows one board over the
server's websocket. The logic is a library verified with Verus; the
program around it does the terminal, the network and the files.

## Layout

- `src/` — the verified library (`plnk`).
  - API client decisions: `search` (three-tier name matching), `routes`
    (REST paths), `cards` (snapshot filtering, batched fetches, attachment
    paths), `client` (status handling, error mapping), `transport` (policy,
    retries, backoff, `Retry-After`), `error` (typed errors, exit codes,
    error envelopes), `config` (credential resolution), `models`.
  - Explorer state: `state`, `board`, `snapshot`, `tree`, `visible`, `nav`,
    `lookup`, `groups`, `order`, `ids`, `drafts`, `editor`, `events`, `live`,
    `actions`, `keys` (from a state and a key press to the next state and an
    effect for the program to carry out).
  - Rendering decisions: `detail`, `panes`, `screen`, `explorer` (text
    helpers, fast copy payloads), `eventlog`.
  - Live sync: `socket` (Engine.IO / Socket.IO framing and session steps),
    `session` (login and snapshot handling).
  - `laws` — properties that relate several operations, stated and proved.
- `tests/` — tests of the library on concrete values.
- `app/` — the `plnk-tui` program and the HTTP/API layer: terminal loop and
  drawing, HTTP client, websocket task, config files, serde wire types.
