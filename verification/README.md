# yamux

A stream multiplexer in the style of yamux, verified with Verus: many logical
streams share one connection.

- `src/` is the verified library.
  - `frame.rs`: frame header fields, flag bits, frames and the codec of the
    frame header, with its round-trip law.
  - `stream.rs`: a stream's state machine, its flow-control windows and the
    buffer of received data, modelled by `StreamView` and `frame_step`.
  - `session.rs`: the decisions of a session (stream ids, accepting streams,
    forwarding frames, pings, go-away, the next move of the accepting loop),
    modelled by `SessionView`.
  - `config.rs`, `error.rs`: settings and errors.
  - `channels.rs`: the ends of `crossbeam-channel` channels, each with a
    record, kept by the trusted wrappers, of what went through it.
  - `fnv_maps.rs`: the trusted wrappers around `fnv`'s map and set.
- `app/` drives a session over a tokio connection (`Framed`), implements the
  futures `Stream` of accepted streams and the `io`/tokio traits on stream
  handles.
- `tests/` exercises the library.
