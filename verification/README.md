# diem_ledger_app

The logic of a Ledger Nano S application that signs Diem transactions,
verified with Verus.

- `src/hex.rs`: hexadecimal rendering (`to_hex`) and its laws.
- `src/review.rs`: the fields of a raw transaction shown for review.
- `src/apdu.rs`: instruction bytes, command decisions, the menu, and the
  buffer that gathers a message to sign in chunks.
- `src/crypto.rs`: the derivation path and Ed25519 public key compression.
- `src/diem_types.rs`: the Diem transaction types.
- `src/bounded.rs`: trusted contracts of the `heapless` containers and of
  `core::str::from_utf8`.
- `app/`: the device program (UI, APDU I/O, key derivation and signing
  through the Ledger SDK).
