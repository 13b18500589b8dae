# aethertune

The core of a terminal internet-radio player, written in Rust and proved with
Verus. Streams are played by mpv; this crate decides what to tell mpv, reads what
mpv answers, and says what each key does.

- `src/` is the verified library. It performs no input or output.
- `tests/` exercises the library from outside.
- `app/` is the program around it: it starts mpv, talks to it over a socket or a
  named pipe, captures audio for the visualizer and draws on the terminal.

Numbers that mpv reports are kept as decimal numerals; the program turns them
into floating point where it shows them.
