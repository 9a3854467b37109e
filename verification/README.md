# sysmon

A terminal dashboard of system monitors: CPU, GPU, memory, disk I/O,
network, prediction markets and NASA's astronomy picture of the day.

The crate is in two parts.

- `src/` is the library, written in Verus and verified: the parsers of the
  kernel's `/proc` and `/sys` files and of `dmidecode` output, the terminal
  palette readers (OSC replies, Kitty and Ghostty themes), the labels the
  panels print, history buffers, the monitors' state machines (fast mode,
  view and selection changes, refresh keys), the per-process I/O tracker
  and its sorted table, the market and picture fetchers' decisions, date
  arithmetic, picture decoding and scaling (through the `image` and `artem`
  crates), the APOD reply read as JSON (through `serde_json`), the Kitty include walk,
  the columns and strokes of the line charts, an exact model of binary64
  rounding (for colour mixing, picture fitting, percentages and
  rate ordering), the rain animation's
  trails, and the
  dashboard itself (panel choice, focus, swaps, key routing, the grid and
  the wait before the next refresh). Laws that span calls are public proof
  functions next to the code they speak of.
- `app/` is the program around it: the command line, the terminal, reading
  files and devices (procfs, NVML), HTTP fetches, reading the APOD records, and the
  floating-point work (rates, chart scales, colour blending) and drawing.

`tests/` exercises the library.
