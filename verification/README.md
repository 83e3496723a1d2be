# vector_core

The event model of an observability pipeline, verified with Verus: log, span and metric events in
the shape of OpenTelemetry messages, the values and paths by which programs read and change them,
their JSON and Vector-native notations, the arrays and disk-buffer records they travel in, and the
declarations of what components send and receive.

- `src/` is the library. Every function states what it returns or changes; the files whose names end
  in `_laws` hold what follows for several functions together: what was written is read back, an
  event that is taken apart, sent or handed to a program comes back as it was, and so on.
- `tests/` runs the library on concrete values.
- `app/` is ordinary Rust around the library: floating-point arithmetic, Lua, `serde_json`,
  `tracing`, streams and process-wide settings.

Doubles are held as their bits (`u64`). An operation that has to compute with doubles takes a closure
for that, and its contract says what holds for whatever the closure gives.
