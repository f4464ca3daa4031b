# distaff

A verified library for the Distaff virtual machine: programs, their assembly, their hashes,
and the STARK constraints that an execution trace of a program must satisfy.

- `src/math`: the prime field, roots of unity, polynomial evaluation and interpolation.
- `src/utils`: the Rescue permutations used by the program hash and by the stack's hash operation.
- `src/crypto`: BLAKE3 digests and Merkle trees of digests.
- `src/programs`: program blocks and their hashes, procedures with Merkle authentication paths,
  execution graphs, the assembler and its error reporting, and program inputs.
- `src/stark`: trace states, proof options, FRI position helpers, and the transition constraints
  of the decoder and of the stack, with the laws that correct transitions satisfy them.
- `app/`: serde and display copies of library types.

Every function in `src/` carries a contract that Verus proves; `tests/` runs the library on
concrete values.

## Not included

These parts of a full prover are outside the library, because the components they rest on
(an execution trace table with its polynomials, FFT-based evaluation, a Merkle-tree prover
over 64-bit field elements, and the decoder's op-bit and flow constraint modules) are not part
of it:

- transition evaluation of the constraint evaluator (`evaluate_transition`,
  `evaluate_transition_at`, `get_transition_evaluations`), which needs the decoder's op-bit
  constraints, and building an evaluator from a proof; the evaluator here does combine given
  transition values (`combine_transition_constraints`) and tells the steps at which they must
  vanish (`should_evaluate_to_zero_at`);
- transition evaluation of the decoder with op-bit masks (`Decoder::evaluate`, `evaluate_at`);
  the decoder's flow constraints are here only for the four flow operations of the second
  decoder;
- constraint polynomials and tables, the composition polynomial and its coefficients, and the
  hash accumulator evaluator;
- the FRI prover (`reduce`, `build_proof`) and its proof types;
- the block-structured assembler (`parse_block` and the branches of its blocks), whose
  operation parsers are not part of the library.

The Rescue round constants and MDS matrices here are the library's own, so program and span
hashes are checked by the laws and by tests on concrete programs, not against fixed digests.
