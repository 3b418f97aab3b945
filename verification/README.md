# vmui

A verified library for observing and driving desktop UI sessions: the
session and artifact bookkeeping of the UI agent, the wire forms of its
messages, snapshot diffing and comparison, the decisions of the agent's and
the proxy's session loops, and the pure parts of the Windows backend (tree
materialization, target resolution, probe geometry, capture encoding).

- `src/` is the library. Its functions are verified by Verus against their
  `requires`/`ensures`, except the few `#[verifier::external_body]`
  wrappers (and two `assume_specification` items) that call `chrono`,
  `uuid`, `image` and std, whose contracts are trusted; each says in its doc
  comment which outside function it calls. The laws the library keeps across
  calls are public proof functions next to the functions they speak of.
- `tests/` runs the library on concrete values.
- `app/` is the thin program around it: configuration, the artifact files
  on disk, and the JSON reports.

Verify with `verus` on `src/lib.rs` (crate type `lib`).
