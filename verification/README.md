# latch

An LLM gateway toolkit with verified core logic: conversation compression,
prompt-cache planning, content analysis for routing, retry and circuit
breaking, session metering, backend fingerprinting, sticky session routing,
endpoint failure tracking, and token billing (idempotency keys, meter
readings, price snapshots, rating).

- `src/` is the library. Every function carries a contract proved by Verus;
  the few calls into other crates (`rust_decimal`, `chrono`, `xxhash-rust`,
  `fastrand`, std's clock and case mapping) sit behind small trusted
  wrappers whose contracts say what those crates document.
- `app/` is the `latchd` daemon and the host side of the components: HTTP
  handlers, the keep-alive sweep timer, HTTP probing, configuration files,
  and the parts computed in floating point (cost, savings ratio, pool and
  endpoint scores).
- `tests/` exercises the library on concrete values.
