# yeelight-core

Discovery and local control of Yeelight WiFi LEDs over the LAN, written in Verus:
the protocol logic and the decision logic of the desktop controller are executable
Rust functions whose behaviour is stated in `requires` / `ensures` contracts and
proved.

## Layout

- `src/` — the verified library.
  - `commands`, `message`, `json`, `error` — protocol requests (validated
    arguments, wire parameters), reply and notification parsing.
  - `device`, `discovery`, `address` — device records, SSDP-style search
    messages, announcement parsing, and the text and reading of IPv4 and IPv6
    socket addresses.
  - `client`, `music`, `firewall` — the decisions around the control connection,
    music mode and the `ufw` helpers.
  - `ambient`, `driver`, `audio` — screen-color extraction (integer models of the
    single-precision arithmetic), flow buffering and the rate/fallback state of the
    reactive drivers.
  - `control`, `panel`, `presets` — the control panel's operations, timers,
    command log and built-in presets.
  - `mock` — the fake bulb used for hardware-free development.
  - `text` — string helpers (decimal rendering and parsing, line and word
    splitting) with their specifications.
- `tests/` — tests run against the compiled library.
- `app/` — the unverified I/O shell: sockets, processes, files, the TOML registry
  and the fake-bulb server. It hands the library plain values and acts on what it
  returns.
- `extras/single_precision_models.py` — an exhaustive cross-check of the integer
  models in `src/ambient.rs` against IEEE single-precision arithmetic.
