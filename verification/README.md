# sparko_embedded_std

Platform logic for small embedded boards (ESP32 and similar), written in Verus:
every function under `src/` carries a contract. Verus proves them all but
those of the small trusted wrappers around calls into outside crates and std,
whose contracts restate what those crates' sources and documentation say.

- `src/` — the verified library: time zones, typed configuration values and
  schemas, the settings pages and what a submitted form changes, the mapping of
  configuration struct fields to schema entries, problem reporting, status
  colours and LED flash plans, smart-LED encodings (RMT and SPI), the binary and
  analog clocks, the task scheduler's decisions, the platform's start-up steps,
  touch reports, motion-sensor samples, the captive DNS answer and the DynDNS2
  updater's text handling.
- `tests/` — tests of the library on concrete values.
- `app/` — ordinary Rust around the library: locks and threads, the task loop,
  configuration storage and the web server hooks, display drawing and the
  attitude filter (floating point), and conversions to the `rgb`,
  `embedded-graphics` and `mipidsi` types.

Verify with Verus; `cargo test` runs the tests.
