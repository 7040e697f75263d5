# openpeer

The verified core of OpenPeer's signaling protocol.

- `src/protocol/messages.rs`: big-endian integers, strings, socket
  addresses, the 8-byte frame header and the message builders, each with a
  contract over a specification of the wire format, and round-trip laws.
- `src/protocol/codec.rs`: the frame decoder (reassembly of frames from
  partial reads) and the frame encoder (buffered output), specified as a
  state machine. Laws: feeding bytes in two calls, where the first call
  completes no frame, ends as feeding them in one call; a frame split
  anywhere into two pieces decodes as the whole frame; and over any sequence
  of successful feeds, the bytes fed are the frames answered, in order,
  followed by the bytes still pending, the decoder being idle exactly when
  none is pending. A call answers at most one frame: frames that arrive
  together come out on successive calls.
- `src/error.rs`: the unified error type and the I/O error it carries.
- `src/config.rs`: configuration defaults, environment overrides and the
  signaling address.
- `src/text.rs`: decimal and hexadecimal rendering used in error messages.
- `app/`: stream I/O, the configuration file and environment, conversions to
  the standard library's network and I/O types, and the command lines.
