# bill_of_zero

Letter-of-Credit settlement with private documents: a seller proves that an
invoice and a bill of lading satisfy the terms of a Letter of Credit, and an
escrow releases the payment only for a journal bound to that LC and to its
exact terms. An auditor can later open the committed documents, in full or
field by field.

`src/` is the verified library (Verus):

- `model` – the shared data model and its constants.
- `digest`, `bytes` – SHA-256 and little-endian encodings.
- `commitment` – party ids, the document and terms digests, the per-field
  selective-disclosure commitments and the auditor's opening.
- `merkle` – fixed-depth allowlist trees, inclusion proofs and root
  reconstruction.
- `journal` – the fixed 80-byte public journal.
- `compliance` – every rule of the Letter of Credit, in order, producing the
  journal of a compliant presentation.
- `host` – the prover's witnesses: allowlist proofs and the issuer signature.
- `escrow` – the escrow's decisions: initialize once, release once, bound to
  the LC id and the terms digest.
- `text`, `util`, `backend`, `config`, `frontend` – the terminal front end:
  parsing of typed dates and tool output, and the state machine that turns
  key presses and worker results into actions.

`app/` holds what runs around the library: the terminal UI and its worker
threads, the prover and zkVM program, and the on-chain contracts.
`tests/` exercises the library with the real SHA-256 and Ed25519 crates.
