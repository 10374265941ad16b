# Game Boy door

A terminal Game Boy / Game Boy Color front end that runs as a bulletin-board door:
callers connect over telnet or SSH and play in their terminal, with CP437 block or
ASCII rendering, ANSI-music or streamed-PCM sound, per-user saves and preferences,
and a ROM browser built for slow, remote terminals.

- `src/` is the verified library: every function carries a contract that Verus
  proves, and the public `law_*` proof functions state what holds of the library as
  a whole.
- `app/` is the program around it: the caller's connection, files, the emulator
  (`gameboy_core`), the clock, and what is computed in floating point.
- `tests/` runs the library on concrete values.

| Module | What it holds |
| --- | --- |
| `text`, `path` | texts, numbers and `/`-separated paths |
| `color`, `framebuffer` | color depths, quantizers, palettes, the pixel buffer |
| `renderer`, `screen` | delta-encoded frames, and what they do to a terminal |
| `cp437` | UTF-8 to CP437 output |
| `keys`, `input` | the input decoder; which key is which button |
| `menu`, `menu_state`, `menu_loop`, `menu_draw` | the ROM browser |
| `config`, `door32`, `save`, `args`, `term` | preferences, dropfile, saves, command line, connection |
| `splash`, `status`, `session` | the startup splash, the status line, the session around the games |
| `game`, `pace` | the decisions of a running game; link backpressure |
| `apc_audio`, `wire`, `ansi_music`, `audio` | streamed clips, their encoding, ANSI music, the local ring buffer |
| `out` | terminal commands, through `crossterm` |

Two parts of `app/` are compiled only when asked for: playback on a sound card, with
`rodio` (`localaudio`), and the voices of ANSI music, which need an emulator whose
sound unit can be read (`apu`).
