# re-ch-rzl-rust

A Rizline chart player and recorder. The crate is split in two:

- `src/` is a library verified with Verus: theme colours, combo scoring and
  note hit state, the searches over time-ordered chart data and the stable
  ordering used when a chart is loaded, the hit-effect random generator, the
  command line, encoder selection and ffmpeg progress reading, the conversion
  of rendered frames for the encoder, hit-sound decoding into frames, the file
  choice on mobile, and the small state machines behind the web inbox and the
  iOS document picker.
- `app/` is the program around it: window, drawing and audio through
  macroquad and sasa, file dialogs through rfd, the iOS picker through objc2,
  the web bindings, and everything that computes in floating point (chart
  timing, easing, interpolation, geometry and mixing).

The fonts and hit sounds are embedded from `assets/` at build time.
