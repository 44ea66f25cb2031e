# m4b_merge

The verified core of a command-line tool that merges split audiobook files
(MP3, M4A, M4B) into one tagged M4B file.

- `src/` is the library, checked by Verus: file discovery and grouping, merge
  planning and FFmpeg argument building, metadata lookups (audnexus and
  AudiobookDB) and their mapping, chapter parsing, tag and path formatting,
  and the order of work for a batch, a group, a book lookup and the moving of
  finished files, as state machines.
- `app/` is the program around it: argument parsing, the file system, running
  FFmpeg, HTTP requests, JSON and MP4 tags. It runs the state machines of the
  library and performs the work they ask for.
- `tests/` runs the library.
