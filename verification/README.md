# framed_server

A server for framed protocols over TCP, built on `mio`'s event loop. A user
implements `Handler` (decode, encode and handle frames; hear about new and
ended connections) and starts a `Server`.

Layout:

- `src/` — the verified library (Verus):
  - `token_slab.rs`: the fixed-capacity table of client sockets, keyed by token;
  - `socket.rs`: a client socket's state machine (readiness, registration,
    shutdown), the writer and reader that run on worker threads;
  - `client_handler.rs`: the client event loop's decisions on messages and
    readiness events, returned as actions;
  - `async_reader.rs`: the reader handed to `Handler::decode_frame`;
  - `connection.rs`, `handler.rs`, `server.rs`, `event_set.rs`,
    `event_loop_message.rs`: the public types;
  - `frame_queue.rs`, `io_error.rs`, and the declarations in
    `event_loop_message.rs`: the calls into `crossbeam`, `mio` and `std::io`
    whose contracts are trusted.
- `app/` — the event loops, socket I/O and thread pool that perform what the
  library decides.
- `tests/` — tests of the library.
