# cheatscan

A memory-scanning library in the classic cheat-search style, verified with Verus:
start from a RAM block, then narrow the set of candidate addresses over successive
scans (exact-value scans and previous-value scans, `u8`/`u16`/`u32`/`i8`/`i16`/`i32`/`f32`,
little or big endian, aligned or unaligned).

Layout:

- `src/scanner/mod.rs`: `Scanner`, its constructors and scan passes, with contracts over
  the abstract `ScanState` it views as.
- `src/scanner/state.rs`: `ScanState`, the spec of a scan pass, the state invariant and
  the laws of the library (scans only narrow, survivors are exactly the passing candidates, ...).
- `src/scanner/configuration.rs`: `Configuration` and the candidate-space arithmetic.
- `src/scanner/value_reader.rs`: byte-order-aware readers and their decoding spec.
- `src/scanner/comparison.rs`: comparison operators, including `f32` comparisons computed on
  IEEE-754 bit patterns. The spec follows IEEE-754; that it agrees with Rust's `f32`
  operators is tested (`tests/scenarios.rs`), not proved.
- `app/lib.rs`: the C interface (raw pointers, `Box` ownership) and the `f32` helpers, which
  stay outside the verified library.
