# cleanmeter

The verified core of a hardware-monitoring overlay.

- `src/` — the library, verified with Verus:
  - `text`: lossy UTF-8 decoding, NUL-terminated fields, trimming, substring search;
  - `wire`: little-endian integers;
  - `pipe`: the payloads of the monitor pipe, the command packets, and the
    state update the connection loop makes for each frame;
  - `hwinfo`, `mahm`: the HWiNFO and MSI Afterburner shared-memory layouts;
  - `config`: the settings map and the preference lookups;
  - `process`: the checks made on the output of `reg` and `sc`.
- `app/` — the desktop shell (Tauri commands, named pipe, shared-memory
  mapping, file and process I/O) built on the library.
- `tests/` — tests of the library on concrete inputs.

Floating-point readings are carried by the library as their bit patterns;
the shell turns them into numbers.
