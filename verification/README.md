# hyperlight-js

Runs JavaScript in a Hyperlight micro virtual machine and lets it call functions of the host.

- `src/` is the library, verified with Verus: the wire format between guest and host, the
  conversion of values with binary data, the modules that guest code can import, the handlers and
  modules of a sandbox, and the stages of a sandbox as the Node.js and Python bindings show them.
- `app/` puts the library to work: QuickJS in the guest, the virtual machine on the host, and the
  two bindings.
- `tests/` runs the library.

Binary data never travels inside JSON. A `Uint8Array` among the arguments of a host function is
taken out into a length-prefixed sidecar, and `{"__bin__": N}` is left in its place; the other side
puts blob `N` back. `src/runtime/round_trip.rs` and `src/host_api/arrival.rs` prove over JSON trees
that the bytes arrive as they were sent, provided that no object of the caller's uses the reserved
key. The text of that JSON, and the conversion between the library's JSON and `serde_json::Value`,
rest on `serde_json` and on `app/`.

Floating-point numbers are held by their bits in the library (`src/double.rs`); converting them is
left to `app/`.
