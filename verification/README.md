# lan_mouse

Verified core of lan-mouse, a mouse and keyboard sharing tool.

- `src/proto.rs`: the datagram protocol. Event types, capability bits, the
  byte encoding of every event and its decoding, with the proof that
  decoding an encoded event gives it back.
- `src/wire.rs`: big-endian integers on byte sequences.
- `src/clipboard.rs`: splitting clipboard contents into datagram-sized
  chunks and reassembling them, with the proof that chunks taken in any
  order rebuild the data.
- `src/sync_lock.rs`: recognising session locks in screensaver signals,
  with at most one report per two seconds.
- `src/capture.rs`: screen-edge detection and the begin-capture decision of
  the X11 backend.
- `src/frontend.rs`: autostart entries, the port entry, the diagnostics
  window text and the requests of client rows.
- `src/text.rs`: `String` and UTF-8 conversions.
- `app/`: the system clipboard, the lock monitor process, Xlib pointer
  queries, autostart files, and the error types with their derives.
