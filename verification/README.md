# jellyswarrm

The rules of a proxy that combines several media servers into one, written and
proved in Verus.

- `src/` is the library. Every function carries a contract, and the laws that
  span functions are public proof functions whose names begin with `law_`.
  - `quick_connect/`: sessions that a device opens, a user approves and the
    device then signs in with.
  - `syncplay/`: groups of sessions that watch together, what their members are
    sent, and what happens when connections come and go.
  - `libraries/`: the libraries that the servers have, the board of virtual
    libraries, the markup of the pages, and what the administrators' requests
    are answered.
  - `ui_build.rs`: when the embedded web interface is built anew.
  - `table.rs`, `text.rs`, `clock.rs`, `ids.rs`, `digest.rs`, `headers.rs`,
    `authorization.rs`, `status.rs`, `users.rs`: what the others stand on.
- `tests/` runs the library with the crates that it calls.
- `app/` is the web layer around the library: HTTP handlers, JSON bodies,
  websocket queues, timers and the build of the web interface. It talks to the
  stores and the media servers through the trait `Backend`.

Calls into other crates stand behind small functions with trusted contracts,
each of which says in its doc comment what is claimed of the call: the clock
(`chrono`), identifiers (`uuid`), digests (`sha1`, `hex`), header fields (`http`,
through `axum`), escaping in markup (`askama`) and random digits (`rand`).

Time and fresh identifiers are arguments of the functions that end in `_at`;
the functions of the same name without the ending read the clock and draw the
identifiers themselves. What is drawn, asked of a store or answered by a media
server is likewise an argument of a function with an exact contract: `code_of`
takes drawn digits, `confirm_at` the outcome of a lookup, and the steps of
`quick_connect/login.rs` each reply in turn, with what to ask for next.
