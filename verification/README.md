# linkclihost

A headless Ableton Link peer for Linux: live TUI dashboard, optional JSONL/CSV
event log, MIDI clock output and a small drum sequencer, all locked to the
joined Link session.

The crate is split in two:

- `src/` — the library, verified with Verus: meter parsing and labels, the
  sequencer's preset bank and step arithmetic, the shared audio controls, MIDI
  clock decisions (transport edges, waits, jitter statistics, port selection),
  the CSV layout and quoting of the event log, the bounded tempo history, key
  bindings and the dashboard's text.
- `app/` — the program around it: command-line parsing, the Link session,
  audio and MIDI I/O, threads, the terminal UI and everything that computes
  with floating point (tempi, beats, phases, the synth).

Tests of the library are under `tests/`.
