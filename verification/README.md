# gpui_mobile

The decisions behind a mobile user interface toolkit, verified with Verus: text selection across
painted fragments, text input on iOS and Android, touches and flings, the choice of fonts and the runs
of glyphs, and the server that lets development tools look at a running application and drive it.

- `src/` is the library. Every function states what it does, and every file of it is verified.
  Lengths are held by their bits: what is computed with them is handed in, what is decided from them
  is proved.
- `tests/` runs the library from outside.
- `app/` is what touches the machine: sockets, files, threads, clocks, shaping and drawing of text,
  and arithmetic on lengths.
