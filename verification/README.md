# beemesh machine plane, verified core

`src/` is a Verus library: every function in it is verified against its
`requires`/`ensures` contract, and the laws of the library (what a read
gives back of a write, what every operation keeps, what one call undoes)
stand there as public proof functions or in the `ensures` of the functions
they are about. Two cryptographic round trips rest on what the outside
crates give: a signature made with a key pair's secret key verifies under
its public key (ML-DSA), and a blob sealed to a public key opens under a
secret key whose decapsulation recovers the encapsulated secret, which
ML-KEM gives for a key pair except with negligible probability. Calls into outside crates (base64,
saorsa-pqc, aes-gcm, blahaj, libp2p's peer ids, serde_json, rand and std's
hasher and clock) go through small trusted wrappers whose contracts say what
those crates document.

- `src/` — the library, one module per concern: stores (`manifest_store`,
  `versioning`, `manifest_announcement`, `provider_manager`,
  `discovery_manager`, `control`, `handshake`, `tasks`, `kube`, `replay`),
  byte formats (`provider`, `recipient_blob`, `bytes`), cryptography
  (`crypto`, `envelope`, `signing`), the decisions of the request handlers
  (`apply`, `delete`, `keyshare`, `manifest_fetch`, `capacity`, `rest`,
  `reply`) and of the command-line client (`client`).
- `tests/` — tests of the library on concrete values.
- `app/` — the node's entry point: settings, key files on disk and
  process-wide state. Networking, HTTP and the container runtime are not
  part of it.
