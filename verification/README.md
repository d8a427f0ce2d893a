# lustro

A 256-bit state engine offering a hash, a seeded PRNG and an
extendable-output function (XOF), each with batch variants and snapshots,
written in Verus with its behaviour stated in contracts and proved.

## Layout

- `src/` — the verified library.
  - `engine.rs`: the core transformation (IDM followed by ERD). Its
    rotation amounts and ERD constants are this crate's own definition;
    the digests and streams, and the expected values in `tests/`, follow
    from them.
  - `api.rs`: branch derivation, message absorption and the buffered
    single-stream state, with the laws of buffered output.
  - `dispatch.rs`: batch lanes, batch hashing and lockstep / multi-step
    stream dispatch; the parallel paths run on a private rayon pool behind
    trusted wrappers whose closures are verified functions.
  - `hash.rs`, `prng.rs`, `xof.rs`: the public constructions.
  - `types.rs`: digests, seeds, stream identifiers and the snapshot formats.
  - `bytes.rs`: little-endian encoding and its lemmas.
  - `errors.rs`: the status codes of the C interface and the argument
    checks of its batch hash calls.
  - `laws.rs`: properties relating several operations.
- `tests/` — tests on concrete values.
- `app/` — the C interface, the Python module and the `rand_core`
  integration.
- `extras/model.py` — an executable model used to compute expected test
  values.
