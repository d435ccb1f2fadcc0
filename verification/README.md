# rextedi

A small terminal text editor. The library (`src/`) holds its editing model
with verified contracts; the program around it (`app/`) talks to the terminal.

- `src/text.rs`: lines as `char` sequences, grapheme clusters (through
  `unicode-segmentation`), and the byte/char positions that edits use.
- `src/editor.rs`: the editor state (buffer, cursor, scrolling), its
  operations (typing, Backspace, Enter, cursor moves, horizontal scrolling),
  what each leaves to be redrawn, and the text each screen row shows.
- `src/input.rs`: keys and the commands they stand for.
- `src/log.rs`: the window size and the status line.
- `src/document.rs`: reading a file's text into lines and writing them back.
- `app/main.rs`: the key loop, drawing with `crossterm`, file I/O.
