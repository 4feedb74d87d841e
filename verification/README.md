# indy_ledger

Builds the JSON requests that a client sends to an Indy ledger (NYM, ATTRIB,
SCHEMA, CLAIM_DEF, NODE and the GET queries), verified with Verus.

- `src/lib.rs`: `LedgerService` and its builders; each states, for every
  input, the request it returns or the error it refuses with (up to the
  request id, which comes from the clock).
- `src/types.rs`: the operations, the data that some of them read from JSON,
  and the request frame, with the law that a request text determines its id,
  sender and operation.
- `src/json.rs`: JSON values and text, the writer, and the laws on escaping
  and decimal text.
- `src/reader.rs`: reading data structures from JSON values, as objects or
  arrays, with serde's rules and messages.
- `src/base58.rs`, `src/errors.rs`, `src/constants.rs`: base58 checks, errors,
  transaction and role codes.

Outside crates: `serde_json` (string and integer text, parsing),
`rust-base58` (decoding), `time` (the clock for request ids), each reached
through a small trusted wrapper whose contract is stated beside it.
