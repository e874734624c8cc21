# fg_operations

The operations of a functional group of ECUs: listing them, starting one on all ECUs of the group,
and stopping an execution that was started. The library is written in Verus.

- `src/operations.rs`: the list of operations.
- `src/diag_service/`: the requests to start an operation (`post`) and to stop an execution
  (`delete`), each a state machine from an event to the next thing to be done. `laws.rs` relates the
  two; `server.rs` states what holds while many requests to stop executions are served at once.
- `src/executions.rs`: the table of executions, kept in an `indexmap::IndexMap`.
- `src/ecu.rs`: the answers of the ECUs, gathered under their names.
- `src/ids.rs`: execution identifiers, read, written and drawn by `uuid`.
- `src/json.rs`: JSON objects of `serde_json`.
- `src/api.rs`, `src/docs.rs`: what clients are answered, and the description of the interface.
- `app/`: the HTTP handlers around the library, for `axum` and `aide`.

The outside crates are reached through small functions marked `external_body`. Their contracts are
taken on trust; the comment above each says what is claimed of which function.
