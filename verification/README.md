# viddeck

VidDeck shows the videos of a directory tree as a library in the web browser,
with chapter thumbnails, playback and renaming, and reads the videos with FFmpeg.

- `src/` is the library, verified with Verus: the catalog of videos and its
  operations (record, look up, rename, remove what was deleted), the decisions of
  the scan and of the watcher, the checks of the HTTP requests (thumbnail
  parameters, opening files, renaming), the command lines of ffprobe and ffmpeg
  and the choice of the H.264 encoder, the summary of ffprobe's report, file
  sizes for display, and the listen address. `src/laws.rs` states properties
  that span several functions.
- `app/` is the server around it: command line, HTTP routes, running FFmpeg,
  walking and watching the directory, and what computes with floating point
  (durations, frame rates, chapter times, thumbnail positions).
- `tests/` exercises the library.
