# sync_copy

LAN clipboard sync between trusted devices: X25519 + HKDF-SHA256 key
agreement, AES-256-GCM with an AAD that binds kind, origin and sequence
number, trust and ban lists (a completed handshake approves the requester),
gossip between approved peers, heartbeats and a 50-entry history.

- `src/` — the library, verified with Verus: the peer registry and its trust
  sets, the handshake rate limiter, input sanitising, the AAD framing and
  the crypto wrappers, the history store, the lifecycle phase machine, the
  server-side decisions of every endpoint, the client side's request
  building and reply handling, and the desktop commands' logic.
- `tests/` — tests of the library, run against the real outside crates.
- `app/` — the daemon around it: sockets and HTTP (axum, reqwest), the OS
  clipboard thread, the heartbeat loop, the settings file, serde forms of the
  messages.
