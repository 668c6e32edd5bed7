# vnt SOCKS5 negotiation, verified

`src/` is the verified library:

- `protocol` — the SOCKS5 constants.
- `text` — decimal and hexadecimal rendering of numbers.
- `address` — the target a client asks for, its textual form for a TCP
  connect, and the bound address a success reply reports.
- `reply` — the bytes the server writes back.
- `session` — the negotiation as a state machine: bytes read in, reply and
  next action out.
- `laws` — proofs about whole client byte streams and about replies read back.

`app/` holds the Tokio server that drives a session over real sockets and
relays data once the negotiation succeeds.
