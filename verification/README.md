# vigenere_udp

A Vigenère cipher for message text, and the decisions of a small UDP
messaging system, written in Verus with their contracts proved:

- `src/cipher.rs` — the cipher: only ASCII letters are shifted, by the key
  repeated over the letters of the text; `key|text` payloads.
- `src/wire.rs` — the bytes of a message (bincode, standard configuration)
  and the proof that reading them gives the message back.
- `src/client_util.rs` — messages from typed lines, their encoding, and the
  acknowledgement wait with its bounded resends.
- `src/server_util.rs` — reading a datagram and the acknowledgement for it.
- `src/networking_util.rs` — address and argument checks, port parsing,
  socket endpoints, the reports of failed network steps.
- `src/proxy_util.rs` — the proxy's address checks and its drop/delay plan.

`app/` holds the three programs (`client`, `server`, `proxy` subcommands):
sockets, timers, signals and the terminal, around the library.
