# mtdi

A dynamic-instrumentation engine for AArch64, with its logic verified by Verus.

- `src/arm64.rs`, `src/encoding.rs`: a model of the instructions that hooks read, move and emit.
- `src/hook/`: inline hooks. Instructions are moved out of the way of a jump and still do what they
  did; `src/hook/trampoline/behaviour.rs` proves it against the model.
- `src/injector/`: the code that makes a running process load a dylib, and the steps of doing so.
- `src/events/`: the queues that events are captured in, and the lines that are written of them.
- `src/script/`: the policy that probes are held to, and how they are compiled.
- `src/probes/`: what probes are written against, and some probes.
- `src/cli/`: the command line, the launch of a target, and what the program decides between.
- `src/bench/`: what the benchmarks run.
- `app/`: the program itself. It talks to the kernel, the file system and the compiler, and leaves
  the decisions to the library. What runs inside a traced process, under `app/engine/`, needs macOS
  on Apple Silicon; `app/dylib.rs` is the root of the dylib that brings it there. Roots of their own
  are also `app/swap.rs`, a template for a dylib that takes calls over, and the two benchmarks,
  `app/bench_warm.rs` and `app/bench_cold.rs`.

What is taken on trust stands in `src/text.rs` (UTF-8), `src/hook/pages.rs` (wait statuses) and
`src/script/policy.rs` (the parser).
