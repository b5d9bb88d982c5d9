# piano_fall

The logic of a falling-notes piano visualizer, verified with Verus.

- `src/keyboard.rs`: the 88-key layout (black and white keys, the visible
  C1..B7 range, key positions in tenths of a white key).
- `src/note.rs`: notes and songs in whole milliseconds, MIDI note numbers,
  the demo song.
- `src/playback.rs`: which notes sound and which keys are down at a time,
  firing each note's sound once, re-arming on scrub and rewind, looping,
  the look-ahead highlight, centring the view on a song.
- `src/control.rs`: pause, audio unlock, drag, rewind and theme state and
  the decisions of the input handler and frame update.
- `src/particles.rs`: the integer hash and seeding of spark bursts.
- `src/atlas.rs`: the note-name glyph atlas.
- `src/samples.rs`: which recorded sample plays a pitch.

`app/` holds the floating-point layer (pixel geometry, colours, spark
motion, the per-frame scene) built on the library.
