# mimium_transpiler_bench

A benchmark of sine-oscillator banks written in Faust, in mimium (translated
to Rust, and through mimium's own VM and Wasm backends) and in Pure Data,
with the runtime core of the translated mimium programs verified in Verus.

- `src/` — the verified library: the word encoding of values and handles
  (`word`), per-function state cells with one-sample memories and delay lines
  (`state`), the memory, array and closure stores (`memory`, `arrays`,
  `closures`), the builtin array functions (`builtins`), the bookkeeping of a
  running program (`program`), block arithmetic for the backends (`blocks`)
  and the shapes of the Faust-generated DSPs (`faust`).
- `tests/` — tests of the library on concrete values.
- `app/` — the floating-point signal code built on the library: the Faust
  oscillator banks, the translated mimium programs, the VM, Wasm and libpd
  backends and a PortAudio player.
