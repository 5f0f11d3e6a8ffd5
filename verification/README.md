# component_iroh

A QUIC endpoint that is addressed by public key: it dials and accepts peers
through a relay or on a UDP socket, moves relayed connections to WebRTC data
channels, and authenticates each connection against the key it was meant for.

`src/` is the verified library. It holds the decisions and the data: the
endpoint's state and pump, the TLS suite over AES-128-GCM and HMAC-SHA-256, the
relay's frames and handshake, the signaling, the mailbox server, the virtual
sockets and the demos. Each function's contract says what it returns or
changes; the public proof functions state what holds across functions.

`app/` performs the input and output that the library asks for: websockets,
UDP, the QUIC state machine, the provider traits of the TLS stack.
`component_iroh relayd`, `peer`, `ping`, `relay-echo` and `wake` run from there.
The endpoint and the demos take key handles and peer connections from an
embedder, by the traits in `app/host.rs`.

`tests/` runs the library on concrete values, with the cryptographic crates
linked.
