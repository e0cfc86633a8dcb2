# hunjian

A desktop video mixer: raw footage is cut into equal clips per scene, a few
clips are drawn at random from each scene, joined with random xfade
transitions, overlaid with titles and subtitles, narrated with espeak-ng and
mixed with background music into one or more short videos.

- `src/` is the library, verified with Verus. It decides everything that is
  decided: which clips are drawn and kept within the length budget, the
  transition graph and its offsets, every ffmpeg and espeak-ng command line,
  the subtitle files, the project edits, and the batch pipeline as a state
  machine (`pipeline::MixRun`) that answers each finished task with the next
  one and its progress events. Lengths are whole milliseconds; where the
  front end computes in `f64` (the length budget, piece counts, subtitle
  times, the `-t` of a motion clip), `binary64` and `binary64_sum` state the
  `f64` values on integers (nearest, ties to even) and how std prints them.
- `app/` runs what the library plans: processes, files, HTTP, JSON project
  files and the AI settings file, converting between the library's types
  (milliseconds, thousandths, text paths) and the serialised forms the front
  end uses (seconds, volume factors, `PathBuf`).
- `tests/` exercise the library on concrete values.
