# zs

A command-line tool that builds, signs and deploys Android apps written in Java
(with native libraries in Rust): it drives `aapt`, `javac`, `d8`,
`apksigner`, `adb`, the JDK's `jmod`/`jlink`, and Coursier, and fetches Maven
artifacts.

The library (`src/`) holds the tool's logic, verified with Verus:

- `cli` — the command-line grammar of every subcommand, over the items that
  `lexopt` hands out;
- `build`, `setup`, `tasks`, `fetch` — the exact commands each stage runs, the
  paths they use, and the reading of tool output (the classes `javac` wrote, the
  packages of the Android core jar, the platform `jmod` reports, the coordinates
  Coursier resolved);
- `tools`, `paths`, `text`, `utils` — tool locations, Unix path joining,
  string helpers, the log form of a command, and the stage cards;
- `lexer` — `lexopt` behind the trusted items the rest relies on.

`app/` is the program around it: reading the command line and the working
directory, running processes, downloads, file copies and archive extraction.
`app/android_sample.rs` is the native library of the sample Android app.
