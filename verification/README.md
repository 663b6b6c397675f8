# solar_codegen

The middle end of a compiler for EVM contracts, verified with Verus.

- `src/mir`: the intermediate representation, its builder, utilities on control
  flow, and the parser of its textual format.
- `src/lower`: lowering of resolved contracts. Plans (`plan*.rs`) say which tasks
  a statement or an expression stands for. The machine (`machine*.rs`) performs
  tasks on a function being built. The agenda (`agenda.rs`) orders them and hands
  out what other parts of the compiler have to do.
- `src/lower/answers.rs`: what becomes of their answers.
- `src/lower/effects*.rs`: how many values tasks take and leave, and that plans
  never run short of them.
- `src/hir.rs`: the resolved program, as plain data.
- `src/mir/laws.rs`, `src/lower/laws.rs` and `src/lower/module_laws.rs`: what holds
  across functions.
- `app`: the loop around the library.

Trusted are the wrappers around `alloy_primitives` (256-bit arithmetic,
Keccak-256), `smallvec` and `Arc::clone` of the standard library.
