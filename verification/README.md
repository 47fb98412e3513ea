# gtm_hub

A local hub for agent sessions, with its decisions verified by Verus.

Clients connect to the hub over a Unix socket or, once enrolled as a device,
over TLS on the local network. They follow sessions, send prompts and answer
questions for permission. A session is run by an agent process that the hub
starts, or by an interactive client that takes it over.

- `src/` is the library. `model` gives the hub's state and what each event does
  to it; `hub`, `server` and `actor` are the executable counterparts, which keep
  a log of what is to be done (messages to send, agents to start, connections to
  drop). `laws`, `actor_laws` and `delivery_laws` state what holds of every such
  step. The other modules hold the pieces: JSON, frames, transcripts, session
  listings, enrollment, paths, the client's side, versions and the turn-effort
  commands.
- `app/` is the program: the command line, sockets, TLS, files and processes. It
  reads what the hub asks for, hands it in, and carries out what comes back.
- `tests/` runs the library with its real dependencies.

JSON is read and printed by `serde_json`, certificates are made by `rcgen` and
read by `rustls`, digests come from `sha2` and versions from `semver`; what is
believed of each stands above the function that calls it.
