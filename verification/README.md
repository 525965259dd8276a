# termax

The screen model of a minimal terminal emulator, verified with Verus.

A shell runs on a pseudo-terminal; every byte it emits goes through the
`vte` escape-sequence parser, whose actions (print a character, execute a
control byte, dispatch a CSI or escape sequence) update a `Grid`: a 2D array
of styled cells plus a cursor.

Layout:

- `src/style.rs`: colors, text attributes, cells.
- `src/screen.rs`: the mathematical model of a screen (`ScreenState`) and
  what each terminal action does to it: printing with deferred wrap, line
  feed and scrolling, erase in display/line, SGR, cursor movement, the
  alternate screen, full reset.
- `src/grid.rs`: the executable `Grid`, each method proved to act as the
  model says and to keep the grid well formed; `to_text` renders the screen.
- `src/params.rs`: the `vte` parameter list read into plain vectors.
- `src/text.rs`: the plain-text rendering (trailing white space trimmed).
- `src/render.rs`: what a graphical front end needs: the 256-color palette,
  the colors a style is drawn with, style runs of a line, key encodings.
- `src/laws.rs`: properties relating several actions.
- `app/main.rs`: the program: PTY setup, raw mode, the I/O threads, and the
  adapter from `vte::Perform` to the grid.
