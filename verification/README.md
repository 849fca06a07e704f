# apcore

The core of a module runtime, as a library verified with Verus.

- `src/` holds the library: errors, events, middlewares, the decisions of the
  executor, extensions and observability. Every function carries a contract,
  and the laws that relate functions stand beside them as proof functions.
- `tests/` runs the library on concrete values.
- `app/` holds what cannot be verified: tasks, sockets, files, clocks, and
  copies of types for serde.

A few functions call other crates: `chrono` for texts of points in time,
`serde_json` for JSON text, `regex` and `glob` for patterns, `sha2` for
digests, `uuid` for random identifiers. Each such call stands behind one
function whose contract is believed; its doc comment says what is claimed.

Times are nanoseconds or milliseconds, rates are fractions, and the library
holds no floating point.
