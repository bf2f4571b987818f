# webvh_vectors

A generator of negative test vectors for `did:webvh` resolvers: logs and
DID URLs that a conforming resolver must reject. Each scenario is a
`script.yaml` whose steps create a log, update or migrate it, corrupt an
entry before or after signing, add witness proofs, and name the error the
resolution must report. The generator writes `did.jsonl`,
`did-witness.json` and `resolutionResult.json` beside each script.

The library (`src/`) is verified with Verus:

- `text`, `json` — texts, decimal numbers, and a JSON value model with its
  JSON text;
- `digest` — entry hashes (JCS, SHA-256 multihash, base58) and ed25519 key
  material, through the outside crates;
- `keys`, `script` — the key registry and the steps of a script;
- `document`, `parameters`, `placeholders` — DID documents, log-entry
  parameters, and key placeholders such as `{KEY_1}`;
- `entries`, `mutations` — genesis, update and re-signed entries built by
  hand, and the mutations of the `corrupt` step;
- `scenario` — the scenario as a machine: each step completes, fails, or
  asks its driver for work (a log creation by the did:webvh library, a
  data-integrity signature) and resumes with the outcome;
- `laws` — properties across these: the SCID binding of a genesis entry,
  version numbers, what each step keeps and changes;
- `simultaneous` — key placeholders replaced all at once: substituting
  them key after key does not depend on the order of the keys.

`app/main.rs` is the program: it reads the scripts, performs the work the
scenario asks for, and writes the files. Run it with the directory of the
vectors as its argument.
