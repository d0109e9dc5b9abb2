# tinyframe

A TinyFrame-style framing protocol engine, verified with Verus.

A frame on the wire is `SOF | ID | LEN | TYPE | header checksum | payload |
payload checksum`, with ID, LEN and TYPE big-endian fields of 1 to 4 bytes and
a checksum field of 0 to 4 bytes. The SOF byte is not covered by either
checksum; the payload checksum is present only for a non-empty payload.

## Layout

- `src/` — the verified library.
  - `checksum.rs`: the `Checksum` trait with its mathematical model, and the
    built-in checksums (none, XOR, CRC8 Maxim, CRC16, CRC32).
  - `tx_pipeline.rs`, `tx_core.rs`, `channel.rs`: the transmit path; the bytes
    of a frame are given by `frame_bytes`.
  - `parser.rs`, `rx_parser_core.rs`: the streaming receive parser, specified
    byte by byte by `RxConfig::step`.
  - `observer_store.rs`, `strategy.rs`, `rx_dispatch_core.rs`, `listener.rs`:
    listener tables, ID allocation and dispatch.
  - `tinyframe.rs`, `builder.rs`: the engine and its builder.
  - `call_log.rs`: the log of calls that the transmit path makes to its
    transport, and the plans those calls follow.
  - `roundtrip.rs`, `laws.rs`: properties that span functions, among them
    that the bytes a frame is sent as, fed from its SOF stage to a receiver
    configured alike, complete that frame's ID, type and payload in its
    parser, for every frame whose payload fits the receiver's buffer (a
    longer one is rejected with `PayloadTooLarge`); the engine then hands
    exactly that frame to its listeners (`TinyFrame::accept_byte`).
- `tests/` — tests of the library on concrete values.
- `app/` — a TCP server that answers frames from its clients.
