# cdc_contract

Change data capture between MySQL servers, written in Verus: what a captured
change is, whether it can be carried to a target without loss, and how the
progress of a replication task is kept.

- `src/change_event`: the portable change contract. Transactions, rows and
  values, their validation and their digests; the line reader; target
  capabilities, the planner that explains whether a source field fits a target
  field, and the checks and conversions of values under a plan.
- `src/mysql_source_contract`: cursors, identifiers and capability manifests that
  the MySQL connectors share, and the proof that the codes of published entries
  tell them apart.
- `src/mysql_5_7`: capture. Type mapping, row and value decoding, the binlog
  decoder, sets of transaction identifiers, and snapshots.
- `src/mysql_8_0`: positions in a history, and the checkpoint of a task.
- `src/mysql_8_4`: the sink. Statements, bound values, and the run of a plan
  against a server.
- `src/json.rs`, `src/read_json.rs`, `src/encoding.rs`, `src/number.rs`,
  `src/text.rs`, `src/order.rs`, `src/parameters.rs`: documents, digests, and the
  texts and numbers they are made of.
- `app`: connections, files, serde forms and floating-point spellings around the
  library.
- `tests`: scenarios on concrete values.

Every value of the contract has a document, `doc()`, and a digest of that
document. Contracts speak of these, and of the exact reason for which an input
is refused. Statements that relate several functions are the proof functions
named `law_...`.

What is not proved is what other crates do. Each call into one stands behind a
function marked `external_body`, or an assumed specification, whose comment says
what is claimed of it: base64url and SHA-256 in `encoding.rs`, JSON texts in
`json.rs` and `read_json.rs`, server identifiers in `mysql_5_7/gtid.rs`, and
a few functions of the standard library in `text.rs` and `encoding.rs`.
