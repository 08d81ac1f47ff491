# dove_checks

The verified core of the on-device Bevy check suites (`bevy_ecs`, `bevy_math`,
`bevy_color` on `armv6k-nintendo-3ds`).

- `src/report.rs` — the Markdown result row every check reports
  (`ROW| `function` | input | `expected` | `got` | ✅/❌ |`), the failure
  message, and the verdicts of `eq`, `approx`, `chk`, `ok` and `is_true`.
- `src/layout.rs` — the `size / align` rows that record a type's layout.
- `src/decimal.rs` — decimal rendering of `usize`, used by the layout rows.
- `src/xorshift.rs` — the deterministic xorshift64 generator that drives the
  sampling checks, with the byte layout of `try_fill_bytes` and the laws of
  the stream it produces.

`app/` holds what runs on the device: printing the rows and failing the test
that owns a failing check, the float comparison `f`, the `rand` adapter for the
generator, the `bevy_ecs` smoke run and the `bevy_math` transform demo.
