# mpd_client

A client for the Music Player Daemon (MPD), verified with [Verus](https://github.com/verus-lang/verus).

- `src/` is the library. It holds everything that the client decides, with contracts that Verus
  proves: how a connection is set up (`client/handshake.rs`), which command is sent when and who gets
  which response (`client/runtime.rs`), how responses become results (`client/controller.rs`), how a
  picture is loaded (`client/album_art.rs`), and what the fields of a response mean
  (`client/subsystem.rs`, `responses/info.rs`). It does no I/O.
- `app/` opens connections with `tokio` and runs the loops: it does what the library says, and hands
  the outcome back.
- `tests/` run the library together with `mpd_protocol`, `bytes` and `tokio`.

What the library takes on trust stands in `protocol.rs`, `buffer.rs`, `channel.rs`, `text.rs` and at
the head of `client/subsystem.rs`: each item there says which function of another crate it relies on,
and for what.
