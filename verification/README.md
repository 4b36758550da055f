# video_editor

A non-linear video and slideshow editor whose editing rules are a library verified with
Verus, with a thin command-line program around it.

- `src/` is the verified library: time codes and their text forms, clips (trimming, speed,
  splitting with volume envelopes), tracks and the timeline (selection, moving, snapping,
  splitting at the playhead, placing imported media), slideshow reflow and reordering,
  the undo history, volume envelopes and track mixing, calendar layouts and holidays,
  sticker and text catalogs, the `.peaks` waveform file format, PDF object framing and
  its cross-reference table, PowerPoint XML parts, and the ffmpeg export command (its
  inputs, looped-still lengths, cross-fade offsets, audio mix and argument order). Each
  public function states what it returns or changes; the laws that tie several
  operations together are public proof functions (for example undo after a push, the
  `.peaks` round trip, slides laid end to end, a split at normal speed keeping the
  clip's span, Easter falling on a Sunday between 22 March and 25 April).
- `tests/` runs the library on concrete values.
- `app/` is ordinary Rust: project files (serde), ffmpeg and ffprobe processes, image and
  ZIP encoding, background jobs on tokio, and the floating-point drawing of effects and
  transition blends.

Run `video_editor` without arguments for the list of commands.
