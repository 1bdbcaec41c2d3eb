# vesper

Verified core of the Vesper tools:

- **gate** — a local reverse proxy: its configuration and route tables, the
  managed block of the hosts file, request routing, CORS and mock answers,
  the security shield, the smart DNS rules, the stream segment cache, the
  command line and background-process rules, and the tray menu.
- **drop** — LAN file transfer: pairing codes, trusted devices, request
  frames, admission of incoming files, checksums and the names under which
  received files are stored.
- **dsp / woofer** — audio device bookkeeping: picking stream
  configurations, reporting sample rates and bit depths, engine state, and
  the settings shared with the system audio effect.

`src/` is the library, written in Verus. Its functions carry contracts
that Verus proves, except the small wrappers around calls into std and
outside crates (marked `#[verifier::external_body]`), whose contracts are
taken on trust from those crates' documentation and source. `tests/` runs the library on concrete values.
`app/` is the `vgate` program around it: argument parsing, files, sockets,
HTTP, TLS and the Windows tray.
