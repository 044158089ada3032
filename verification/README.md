# beautyxt_rs

The files of a Typst project and the world that its documents are compiled in,
as a verified library, with a thin layer around it for an Android app.

- `src/project.rs`: the main file and the other files of a project.
- `src/operations.rs`: the operations on open files, and how they go.
- `src/reading.rs`: reading a file, one file operation at a time.
- `src/update.rs`: changing the text of a file, one file operation at a time.
- `src/disk.rs`: what reads and updates do to the files, and that what was written
  is read back.
- `src/paths.rs`, `src/lookup.rs`: finding sources, files and texts.
- `src/replacement.rs`, `src/sources.rs`: Typst's sources, and what becomes of a
  text when another takes its place.
- `src/fonts.rs`, `src/world.rs`, `src/clock.rs`: fonts, the standard library and
  the date.
- `src/render.rs`: what comes of rendering, and reports of errors.
- `app/`: the open files, the clock, Typst's compiler and exporters, and the
  functions that the app calls.

What Typst and its companion crates do is stated where they are called, in the
contracts of the functions marked `external_body` and in the
`assume_specification` items.
