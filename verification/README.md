# hydro-to-capsys

Converts a [Hydro](https://hydro.run) program, together with the loads measured
for it, into the per-operator records that the CAPSys search consumes.

- `src/` is the converter, written in Rust and verified with
  [Verus](https://github.com/verus-lang/verus). It works on plain values: the
  operators that a traversal of the Hydro IR visits, the parents of each, and
  the measured loads. `converter::convert` is the entry point; `laws` holds what
  is proved of the emitted graph as a whole.
- `app/` reads the Hydro IR, runs the analyses of `hydro_optimize` and writes
  JSON.
- `tests/` runs the converter on given values.

Figures such as CPU load are IEEE 754 doubles. The converter hands them on by
their bit patterns and never computes with them.
