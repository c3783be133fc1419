# edt

A non-linear video editor. The editing model is a formally verified
library; the window, ffmpeg, files and floating-point work live in a small
program around it.

## Layout

- `src/` — the verified library (`edt`):
  - `id`, `time`: identifiers and their 26-character text; times as order
    keys of their floating-point bit patterns.
  - `timeline`, `transition`, `media`, `project`: tracks, clips, imported
    media, project settings and the file format version.
  - `editor`, `commands`: the editing session (selection, playhead,
    playback) and the undo/redo history with its edits.
  - `export`, `ffmpeg`, `probe`, `progress`, `render`: export settings and
    strategy, the ffmpeg and ffprobe command lines, reading probe
    reports, export progress, and which clips feed a frame or a mix.
  - `controls`, `text`, `filepath`: keyboard shortcuts, file dialogs and
    file names, snapping points, label colours; reading resolutions and
    shortening labels; comparing file paths component by component.
- `app/` — the egui program: panels, background jobs, running ffmpeg,
  saving and loading JSON, and every computation on seconds.
- `tests/` — tests of the library.

Times are stored in the library as keys of `f64` bit patterns: keys
compare exactly as the times do (`time::lemma_keys_follow_float_order`),
so ordering, searching and clamping are proved, while sums and products
of seconds are left to the program.
