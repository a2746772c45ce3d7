# Vector

The core of a private messenger on Nostr, verified with Verus, and the desktop application around
it.

- `src/` is the verified library.
  - `chat` holds profiles and the chats with them, `timeline` messages, reactions and their order.
  - `nostr` holds rumors, and the calls into the Nostr libraries.
  - `incoming` decides what becomes of rumors that arrive, `outgoing` composes what is sent and
    settles it.
  - `account` reads keys and keeps profiles up to date, `relays` says what relays are asked for.
  - `secrets` keeps texts under a password; `hex` and `text` read and write bytes and numbers.
  - `histories`, `invariants` and `exchange` prove what holds of all of this together: what is
    added is there once, chats stay in the order of time, and what is sent arrives as it was meant.
- `tests/` runs the library with the real outside crates.
- `app/` is the desktop application: the clock, the network, the frontend's commands.
