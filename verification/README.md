# khora-codegen-llvm

The native backend of the Khora compiler, as far as it decides things from
plain values: every decision is a Verus-verified function with a contract,
and the laws that tie the decisions together are proved.

## Layout

- `src/` — the verified library.
  - `graph`, `can_stop`: which functions can reach a cancellation point, and
    why; call cycles, and the callers of a function that can stop.
  - `operators`, `arrays`, `intrinsics`, `effects`: what an operator or
    intrinsic is
    lowered to, with which sign, and which check stops a program whose
    arithmetic, index, conversion or string cut does not fit — with the
    laws that say each check stops exactly what does not fit.
  - `calls`: whether a call goes to a function somebody wrote or to an
    intrinsic, and which.
  - `patterns`, `catches`: when a `match` can be a switch on tags, and
    which arms of a `catch` an arriving error goes to.
  - `variants`, `closures`, `errors`, `statics`, `functions`: the tables the
    backend keeps — variant tags, closure sites, error ids, static objects,
    declared functions and their signatures.
  - `entry`, `driver`: the C `main`, test and bench registration, exported
    symbols, and whether reference counts may be plain.
  - `lines`, `debug_info`: source positions and what debug information says.
  - `ints`, `names`, `text`: integer types and literals, symbol names, text.
  - `toolchain`, `timings`: where the toolchain's tools and the runtime
    archive are looked for, what the linker driver is told, why a link stops,
    and the phase timers.
  - `runtime`: the runtime's interface — each function's symbol and machine
    signature, declared once per module.
- `tests/` — tests run against the compiled library.
- `app/` — what reads the environment, looks at the disk, runs `clang` and
  prints: ordinary Rust around the library.
