# rsvp-format

The binary layout of RSVP files, with contracts on its encoders and decoders and proofs of
their round-trip laws.

- `src/le.rs`: little-endian encodings of `u16`, `u32` and `u64`, with round-trip lemmas.
- `src/header.rs`: the 32-byte file header (`RsvpHeader`), its byte encoding and its checked
  decoding, and the metadata block that follows it (decoded with `bincode-next`).
- `src/chunk.rs`: the 12-byte chunk log entries of a chunked token blob.
- `src/token.rs`: the token vocabulary and the pause each punctuation mark calls for.
- `app/`: copies of the library's types that carry `bincode-next` and `thiserror` derives.
