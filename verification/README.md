# mdown

A MangaDex downloader whose decisions are verified with Verus.

- `src/` is the verified library: file and folder names, the choice of a manga's name,
  the parsing of command-line options and saved settings, the routing of web and server
  requests, which chapters a run downloads, the bookkeeping of the database of downloaded
  manga (`dat.json`) and of the log, the checks of a self-update, and the error type. The
  public functions state in `ensures` what they return. Where the answer rests on another
  library (zip, chrono, semver, sha2, base64, regex, uuid), the contract ties the result to
  a named result of that library's call and says what holds whatever it answers; where the
  other library's behaviour fits in a few lines (percent-encoding), it is written out.
  `src/laws.rs` and a few modules hold the properties that relate several functions.
- `app/` is the program around it: the command line (clap), HTTP requests (reqwest and
  tokio), the SQLite store of settings, archives, the file system and the terminal.
- `tests/` runs the library on concrete values.
