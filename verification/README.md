# voicechat

A small voice and text chat system for gaming: a server that keeps rooms,
relays chat and forwards voice packets, and a client with push-to-talk,
end-to-end encrypted chat, a jitter buffer and screen sharing.

## Layout

- `src/` is the library, verified with Verus: every function states what it
  returns or changes in `requires`/`ensures` over mathematical models, and the
  properties that span several functions are stated and proved as `law_*`
  proof functions.
  - Server: `protocol` (length-prefixed frames), `room` (rooms, passwords,
    capacity, broadcast), `session` (one connection's signalling as a state
    machine), `relay` (UDP voice forwarding), `config` (defaults, environment
    overrides, start-up summary).
  - Client: `voice`, `jitter`, `screen`, `capture`, `crypto`, `chat`,
    `client`, `status`, `login`, `devices`, `hotkeys`, `tray`.
  - Shared helpers: `text` (decimal rendering and parsing, white space),
    `bytes`.
- `tests/` runs the library on concrete values.
- `app/` is the server program (Tokio networking, JSON, TOML, logging) and the
  client's floating-point sample and pixel arithmetic.

Calls into outside crates (Argon2id, XChaCha20-Poly1305, Base64, random
nonces, H.264 decoding) go through small trusted wrappers in `crypto` and
`screen`, each documented with what its contract assumes.
