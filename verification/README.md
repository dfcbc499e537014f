# evk_datalogger

Data logging for the Prophesee EVK4 event camera: a pipeline that decodes, publishes and records
live data, a replay of recordings, and a live view in the browser.

- `src/` is the library, verified with Verus: the wire formats, the circular buffer and the
  recording with pre-roll, pacing, the painting and encoding of frames, HTTP, and the two HTTP
  interfaces.
- `app/` is the three programs around it: device access, files, sockets and threads. One
  executable holds them all; its name selects `replay`, `viewfinder` or else the pipeline.
- `tests/` runs the library together with the crates that it calls.

What the library relies on without proof are the functions marked `external_body`, which call the
crates `array2d`, `chrono`, `image`, `neuromorphic-drivers` and `serde_json`. The comment above each
of them says what it is trusted to do.
