# yt-dlp-clipper

A desktop app that downloads videos with yt-dlp, trims them frame by frame, and
saves clips, whole files or just their sound.

`src/` is the logic, written in Verus: every function states what it does, and
Verus proves it. Nothing in it reads a file, decodes a frame or draws a window.

- `decoder`, `decoder_thread`: landing on exact frames, and folding requests
- `export`: what becomes of each stream, packet, frame and sample of an export
- `audio`: the ring the sound device drains, and the thread that fills it
- `player`, `clip`, `timeline`: the playhead, the selection with its undo history,
  and the bars that move them
- `ytdlp`, `download`, `jobs`, `updater`: the programs that are run, what they say,
  and what the window reports of them
- `keybinds`, `settings`, `theme`, `cookies`, `save`, `cache`, `binaries`, `cli`: choices and
  where they are kept
- `text`, `text_menu`, `format`, `sizes`, `paths`, `image`, `double`: what the rest
  is built from

The proof functions whose names start with `law_` state what holds of several of
these together.

`app/` is the window itself, and everything that touches the system: it runs the
loops, performs what the library decides, and hands the outcome back. `tests/`
exercises the library from outside.

Times in seconds are IEEE doubles. The library compares them, by their bits, and
leaves arithmetic on them to its callers.
