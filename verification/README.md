# zoa

A 3D ASCII renderer for terminals. The library (`src/`) is written in Verus
and proved against its contracts; the program around it (`app/`) draws with
floating point, owns the terminal and reads files.

## Layout

- `src/renderer` — render and pixel modes, character styles, palettes, the
  block/sextant/octant/braille glyph tables and how sub-cell pixels pack
  into them, ordered-dither ranks, buffer indexing.
- `src/shapes/countdown.rs` — the countdown timer: duration parsing,
  ticking, pausing, the digit font and the cell layout of its display.
- `src/shapes/gif.rs` — GIF decoding (through the `image` crate) and frame
  timing that carries leftover time from frame to frame.
- `src/shapes/mesh.rs` — STL framing (binary records and ASCII facets, and
  telling the two apart) and OBJ index grouping.
- `src/shapes/particles.rs`, `src/shapes/sdf.rs` — presets and the integer
  generators behind particle spawning and terrain noise.
- `src/viewer.rs`, `src/cli.rs`, `src/widget.rs` — what keys do in the
  viewer and timer, the command line, and when the widget animates.
- `src/text.rs`, `src/time.rs` — text helpers (words, trimming, decimal
  numbers, UTF-8) and nanosecond time spans.
- `app/` — the `zoa` program: shading, projection, rasterization, the
  shapes, particle physics, ray marching, and the terminal loops.
- `tests/` — tests of the library.
