# penumbra_note

The notes of a shielded pool: how a note is written as bytes and as a message, committed to,
encrypted to its owner and decrypted, and the keys under which the pool keeps its state.

- `src/` is the library. Every function states what it returns and is verified with Verus. What
  the cryptographic crates compute stands behind small wrappers, each of which says what is taken
  from the crate without proof.
- `tests/` runs the library with the real crates.
- `app/` wraps the library's types for programs that serialize, display and report them.
