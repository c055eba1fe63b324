# cripto_endevs_comunity

A symmetric, authenticated channel between two parties that share a 256-bit
master seed, written in Verus: the executable code carries `requires` /
`ensures` contracts and the properties of the channel are proved.

## Layout

- `src/primitives.rs` — the trusted boundary: AES-256-GCM, HKDF-SHA-256,
  HMAC-SHA-256, SHA-256, base64, the OS random generator, `zeroize` and UTF-8
  validation, each with the contract it is believed to meet.
- `src/text.rs`, `src/derive.rs` — big-endian integers, ASCII labels, hex and
  decimal text, domain-separated key derivation.
- `src/packet.rs` — the wire format (v2 outbound, v1 inbound) and the
  associated data bound into each tag, with the codec round-trip laws.
- `src/seed.rs` — the master seed and its transfer token.
- `src/modes/ordered.rs` — the ratcheted ordered channel (`CryptoNugget`),
  with the laws that paired ends deliver every message and stay in step.
- `src/modes/replay.rs` — the anti-replay window channel, with the law that
  no sequence number is accepted twice.
- `src/modes/envelope.rs` — stateless envelopes.
- `src/modes/mod.rs` — `Mode` and `Builder`.
- `src/persistence.rs` — encrypted snapshots of the ordered channel.
- `src/legacy.rs` — the first-generation channel (string seed, boolean role).
- `app/` — `Display` for the error types and a printed walk-through.
- `tests/` — integration tests.
