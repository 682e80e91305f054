# konnekt_session

Lobby sessions with activities, kept in step between peers over WebRTC.

- `src/` — the verified library (Verus): the lobby domain (`domain`), the
  command loop that drives it (`application`), activities (`activities`),
  and the peer-to-peer layer (`p2p`): event ordering and synchronisation,
  the reliable transport, peer bookkeeping and the session loops. Each
  session loop decides; its caller hands it what arrived and sends what it
  queued.
- `app/` — plain Rust around the library: the Matchbox WebRTC connection,
  the JSON forms of the library's values, drivers that run the session
  loops over a connection, and async set-up.
- `tests/` — tests of the library, including sessions on an in-memory
  network.
