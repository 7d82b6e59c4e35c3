# anchovy

A verified parser and writer for Sui's BCS messages: transactions, effects,
events, objects, checkpoints and the validator gRPC requests. It is written
in Verus. Each parser is proved exact against a recognizer for the grammar:
it accepts a buffer exactly when the recognizer does, and the value it
returns encodes back to the bytes it read. The writers and builders are
proved to append exactly those encodings.

## Layout

- `src/reader.rs`, `src/wire.rs`: the cursor over a buffer, the primitive
  reads, and the `Wire` trait, which pairs each type's recognizer (`rec`)
  with its encoding (`enc`).
- `src/base.rs`, `src/type_tag.rs`, `src/object.rs`, `src/transaction.rs`,
  `src/system_transaction.rs`, `src/execution_status.rs`, `src/effects.rs`,
  `src/checkpoint.rs`, `src/signature.rs`, `src/grpc.rs`: the message types
  and their parsers.
- `src/message.rs`: a parsed value kept together with its wire bytes.
- `src/fast.rs`, `src/builders.rs`: the writer and the builders for
  summaries, contents, effects and events.
- `src/tx_index.rs`: what a transaction touches, gathered while it is parsed.
- `src/accept*.rs`: every well-formed value's encoding is accepted whole.
- `src/readback.rs`, `src/error_readback.rs`, `src/tag_readback.rs`: no
  other value has a given value's encoding, so what is written reads back.
- `src/containers.rs`, `src/arena.rs`, `src/order.rs`, `src/shims.rs`:
  sorted maps, the allocation arithmetic, orderings, base58 and hex.

Hashing (BLAKE2b-256) and base58 decoding call the `blake2` and `bs58`
crates through trusted wrappers. Each wrapper's doc comment says what its
contract claims.
