# bose_nc

Noise-cancellation control for Bose headphones over BMAP (Bose Multi-device
Application Protocol), as a verified Verus library with a thin command-line
front end.

- `src/bmap.rs` — BMAP framing: packet serialization and parsing, with the
  round-trip laws in both directions.
- `src/device/` — one module per headphone model (command builders, status
  decoders, per-model laws), the `Model` dispatch, and `ConnectedDevice`,
  which turns transport results into statuses and errors.
- `src/bluetooth/` — RFCOMM result codes, the device listing read from the
  system profiler's output, and the Bluetooth helper's paired-device text.
- `src/commands.rs` — device selection and the scan/status/set/off commands.
- `src/output.rs` — what is printed for each report, as text lines or as a
  JSON value.
- `src/text.rs`, `src/json.rs` — text rendering and substring search; a plain
  JSON document type, with the `serde_json` parse and pretty-printing behind
  trusted wrappers.
- `app/` — `main`, argument parsing, the IOBluetooth transport, the
  `system_profiler` process and error messages.
