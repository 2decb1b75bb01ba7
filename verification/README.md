# music_library_cli

A terminal music player with a song library, written in Verus.

- `src/` is the verified library: command-line parsing, the song library
  (circular navigation, scanning folders for music files, listing and
  searching), path parsing, which command each user action hands to the
  playback channel (whether the playback thread still receives it is not
  something the library can know), what the playback thread decides for
  each command and reports afterwards, the interface state and how events
  change it, key handling, and the exact lines the screen shows.
- `app/` is the program around it: reading and writing `library.json`,
  listing directories, the playback thread and its audio output, and the
  terminal (raw mode, key events, colours).
- `tests/` exercises the library on concrete values.
