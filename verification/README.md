# libdl

A resumable downloader for HTTP and torrents, with the part that decides and
computes verified by Verus.

- `src/` is the library. `chunks` cuts a file into chunks, `state` frames the
  record that lets a download be resumed, `paths` and `links` tell targets and
  addresses apart, `http` holds the rules of a download over HTTP as steps from
  events to actions, `torrent` those of a torrent, and `cli` those of the command
  line. What the file has to do with the resource is stated and proved in
  `http/contents.rs`.
- `app/` is the command `dl`: the exchanges, the disk, the clock and the screen,
  run as the library says.
- `tests/` runs the library, among others in whole downloads with a server and a
  disk in memory.

Times are nanoseconds, paths are text, and header values are bytes. Speeds are
floating-point numbers and are computed in `app/`.
