# waveform

The core of a terminal music player, verified with Verus.

- `src/` is the verified library: reading typed commands and colour
  settings, the settings taken from the environment, the play queue, the
  decisions of the `download` command, and the decisions of the screen (focus,
  song selection, key presses, the sound wave's averaging, time display).
- `app/` is the program around it: the terminal screen, sound output, the
  video service, `yt-dlp` and the files on disk.
- `tests/` runs the library on concrete values.
