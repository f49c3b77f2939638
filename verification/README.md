# pumpkin

Verified core logic of the Pumpkin Minecraft server, written in Verus.

`src/` is the verified library:

- `codec` — VarInts, big-endian integers, strings and byte arrays: a byte
  reader and a `Vec<u8>` writer, each operation specified over byte
  sequences, with round-trip laws.
- `handshake`, `serverbound::{status, config, login, play}` — packet
  decoders, each with an exact contract over the bytes it consumes and a law
  that decoding a written packet gives it back.
- `experience` — level and experience-point arithmetic.
- `plugin_api`, `plugin_metadata`, `native_loader` — plugin API version
  packing and negotiation, metadata lists, library file acceptance.
- `scheduler` — the plugin task queue: scheduling, cancellation, the
  per-tick dispatch order and the re-queueing of repeating tasks.
- `ticker`, `leak_detector` — tick-time statistics, the over-budget
  watchdog, the tick deadline schedule, and reference-count leak sampling.
- `math`, `structures` — block positions and boxes, and where structures
  start, what they span, which templates and pools they use, and the
  block layout of the desert well.

`app/` holds what Verus does not take: the async tick loop, task dispatch
with time limits, leak sampling of live `Arc`s, loading plugin libraries,
the template cache, and the floating-point helpers.

`tests/` exercises the library on concrete values.
