# jellyfin_tui

Side features of a terminal music player, with a verified core.

- `rgb`: fan lighting in the colours of the album, through the lighting service PitRGB.
- `audio_capture`: sinks that route the player's audio to the visualizer, and the capture of its
  bars.
- `fullscreen` and `player`: the full-screen view, album art over the visualizer with a player panel
  below.
- `inhibit`: the lock that keeps the system awake while audio plays.
- `layout`, `text` and `binary64`: rectangles of terminal cells, numerals and whitespace, and shares
  rounded as double-precision arithmetic rounds them.

`src/` is the library, checked by Verus. It decides what is sent, run and drawn, and takes in what
came of it. `app/` is ordinary Rust around it: sockets, child processes, threads and drawing.
