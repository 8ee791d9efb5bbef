# inbound_index

An index of inbound policy for a service mesh, written and verified in Verus.

The index is told which pods, external groups of workloads and policy resources
(`Server`, `ServerAuthorization`, `AuthorizationPolicy`, `MeshTLSAuthentication`,
`NetworkAuthentication`, `HTTPRoute`) there are. For every known port it keeps the
configuration that those resources ask for, and publishes it on a watch channel
that clients subscribe to. A port becomes known when a `Server` selects it, when an
external group lists it, or when a client asks for it.

- `src/` is the library. Every function has a contract over the models of its
  arguments, and Verus proves it. `src/consistency.rs` proves what holds of the
  index as a whole.
- `tests/` runs it.
- `app/` connects it to the watches of a Kubernetes API server.

What is believed rather than proved are the contracts of the outside functions that
the library calls: the hash map of `ahash` (`src/slots.rs`), the watch channel of
`tokio` (`src/watching.rs`) and the lock of `parking_lot` (`src/index.rs`). Each has
a doc comment that says what is claimed.
