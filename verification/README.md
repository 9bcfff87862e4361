# wasm_pvm

The parts of a WebAssembly-to-PVM compiler that do not depend on LLVM,
written in Verus and verified:

- `pvm/`: the PVM instruction set, its byte encoding, program blobs and the
  peephole optimizer (dead code, dead stores, address folding, compaction
  with jump fixups).
- `spi.rs`, `memory_layout.rs`, `abi.rs`: the SPI container, the memory
  layout of a compiled module and the register conventions.
- `llvm_backend/`: the code emitter (labels, jump fixups, the register cache
  that forwards stack slots and constants, operand loading), linear-scan
  register allocation, the function prologue and epilogue, the lowering of
  integer comparisons, binary arithmetic (with trap guards for division) and
  `memory.copy`, and the resolution of parallel stack-slot moves for phi
  copies, with proofs that the emitted moves do all copies at once and that
  the register cache stays truthful. Operands are plain values: a constant,
  the key of a value, or an undefined value.
- `ir/`: a small stack IR and its `local.set`/`local.get` fusion.
- `import_map.rs`, `report.rs`, `text.rs`, `error.rs`: the import-map file
  format, report formatting and error messages.
- `test_harness.rs`: WAT parsing (through the `wat` crate) and instruction
  queries used by tests.

`app/` holds the command-line front end; `tests/` holds the library's tests.
