# loom

Control logic of the Loom and Śaq real-time audio enhancers for Linux,
written in Verus: every function of the library carries a contract, and
Verus proves it.

## Layout

- `src/` — the verified library.
  - `loom/` — the Loom daemon's settings and request handling (`daemon`),
    its modes (`mode`), the PipeWire routing decisions (`routing`, with the
    laws they keep in `routing_laws`), the audio callback's control state
    (`engine`), the two-round-trip shutdown (`shutdown`), the control
    client's command line (`ctl`) and the mode buttons (`gui`).
  - `saq/` — the Śaq daemon (`daemon`), its modes (`mode`), equalizer
    presets and profiles (`eq`) and the mode buttons and curve editing
    (`gui`).
  - `standalone` — the settings shared by the standalone player.
  - `ipc` — the bookkeeping of the line-framed socket protocol.
  - `wav` — reading samples out of RIFF/WAVE files.
  - `single` — single-precision values handled by their bit patterns
    (finiteness, `<`, clamping).
  - `level`, `text` — stored levels and string helpers.
- `tests/` — tests of the library on concrete values.
- `app/` — the programs around the library: both daemons (socket server,
  signals, saved settings) and both control clients.
