# met_api

The request-handling rules of the Meticulous CI API server, as a Verus-verified Rust
library.

- `src/` — the library. Every public function has a `requires`/`ensures` contract that
  Verus proves, and every private helper is verified where it is used;
  `src/laws.rs` holds the properties that span several functions. Calls into
  outside crates (HMAC-SHA256, SHA-256, base64, URL and query-string parsing, UUIDs,
  RFC 3339 times, random UUIDs, Unicode case mapping) go through small trusted wrappers whose contracts
  state what those crates document.
- `tests/` — tests on concrete values, run against the compiled library.
- `app/` — what stays outside the verified library: IP/CIDR parsing, JSON documents, the
  serde forms of webhook payloads and response bodies, and the checks made before calling
  library functions with preconditions.

Verify with `verus` on `src/lib.rs` (crate type `lib`), with the outside crates of
`Cargo.toml` available.
