# notation

The model behind a small music-notation editor, verified with Verus.

- `src/` is the verified library: pitches and staff positions, note durations
  (counted in ticks of a 128th note), bars and how changing a note's duration
  rearranges the rest of the bar, staves, the staff interaction state machine,
  the score editing page's decisions, MIDI messages and interleaved stereo
  samples.
- `app/` is the program around it: font loading, layout and drawing with iced,
  audio playback with rustysynth, cpal and rodio. Layout and drawing work in
  floating point and stay there.
- `tests/` runs the library on concrete scores.
