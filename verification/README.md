# iot_edge_spiffe

SPIFFE identities for IoT Edge workloads running on Kubernetes: an agent that attests
workloads and hands them JWT-SVIDs, a server side that matches workloads to registration
entries and keeps keys, and an identity manager that keeps the server's registration entries
in line with a configuration.

The library under `src/` is verified with Verus: its functions carry `requires` / `ensures`
contracts (reading the clock, files and the Kubernetes API is left to `app/`, which hands the
library what it read), and the properties that span several functions are stated and proved as public
proof functions (for instance `lemma_reconcile_converges` and
`lemma_reconcile_idempotent` in `identity_manager/reconcile.rs`).

Layout:

- `src/core_objects.rs`: identities, registration entries, selectors, JWT-SVIDs, trust bundles.
- `src/workload_attestation.rs`: from a process's cgroups and the node's pods to the workload's
  selectors, and the polling of the pod list.
- `src/jwt_svid_validator.rs`: framing and checking of JWT-SVIDs, with ES256 signatures checked
  under the first trust-bundle key with the token's key id.
- `src/identity_matcher.rs`: matching of workloads to registration entries.
- `src/identity_manager/`: reconciliation of registration entries, the in-memory connector, the
  paging of entry listings.
- `src/key_pair.rs`, `src/key_store.rs`: key pairs kept as PEM files, signing.
- `src/trust_bundle_manager.rs`, `src/server_client.rs`, `src/server_agent_api/`,
  `src/workload_api_server.rs`: the agent's dealings with the server and with workloads.
- `src/text.rs`: character-level string helpers.
- `tests/`: tests of the library on concrete values.
- `app/`: the I/O around the library (configuration files, Kubernetes pods, cgroups, key files,
  JSON, retry and refresh loops), written as ordinary Rust.

Calls into outside crates (`url`, `regex`, `base64`, `openssl`) stand behind small trusted
wrappers. Where the outside result is a function of the arguments (URL parsing, regex
captures, base64, SHA-256, ECDSA verification, what unencrypted PEM bytes hold), the wrapper names it with
an uninterpreted spec function; where it is random or left open (key generation, signing, whether an
OpenSSL step fails), the contract says only what holds of every outcome.
