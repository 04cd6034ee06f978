# Stream Desk

A remote desktop: a host shares its screen over a server, participants watch,
chat and, if the host allows it, control the host's desktop. Sessions are
recorded and can be watched later.

- `src/` is the library, verified with Verus: the wire protocol (`protocol`),
  the encrypted channel (`secure_channel`), the rules of the server (`server`)
  and the state of the client's scenes (`scenes`). It takes plain values in and
  hands plain values back, mostly lists of actions to carry out in order.
- `app/` is the program around it: sockets, threads, child processes, the
  database and the window. It starts the client, or the server if it is given
  the argument `server`.
- `tests/` runs the library.

What the library takes on trust stands in a few small functions: the ciphers and
keys in `src/crypto.rs`, the reader of video units in `src/video.rs`, the digest
of passwords in `src/scenes/login_scene.rs`, the reading and showing of times in
`src/scenes/menu_scene.rs`, the random numbers and names in
`src/server/client.rs` and `src/server/host.rs`, and the decoding of text in
`src/text.rs`.
