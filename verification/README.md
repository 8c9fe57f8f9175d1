# kodiki

The core logic of a 3D text editor front end (an editor and a terminal drawn
as meshes of glyphs), written in Verus: each function states what it does in
`requires`/`ensures`, and Verus proves it.

Layout of `src/`:

- `mesh` — index-level topology of extruded glyph meshes (edge adjacency,
  back faces, connecting quads).
- `fonts`, `glyph_class`, `glyph_image` — fonts parsed with `ab_glyph`, the
  choice of the font that draws a glyph, and the cell grid of glyph images.
- `surface` — the cache of a text surface: cells split into words and
  coloring lines, rows synced with what is spawned, scrolling, resizing and
  cursors; and which surfaces are spawned or dropped.
- `highlights` — highlighted ranges (diagnostics, selections, searches) laid
  out on lines with tabs expanded, and when highlights are redrawn.
- `search` — search and selection matches, found with `regex`.
- `minimap` — the rows of colored words of the minimap, its bookmarks and
  diff gutter, dragging and clicking its viewport, and the preview of the
  lines under the pointer.
- `input` — key codes, modifiers, key repeat, and mouse and wheel events for
  the editor and the terminal.
- `framerate` — the frame-rate state machine (idle, active, smooth), and
  the clickable frame-rate debug tool with its state lines.
- `language_server`, `lsp` — diagnostics, progress reports and replies of a
  language server, its configuration requests, what its exit clears, the
  status after a write, and the framing of its messages.
- `helix_app`, `terminal`, `goto`, `hover` — the editor's view areas and
  scrolling, the embedded terminal's keys, size, title, cursor and which of
  its lines to draw, control-hover links, and hover documentation timing.
- `app_state` — the application's loading stages, contexts and camera modes:
  run conditions, keyboard shortcuts, context switchers and the window title.
- `selection` — whether anything below an entity of the scene is selected.
- `strings` — building strings and decimal numbers.

`app/` holds what touches the outside world: reading font files, running a
language server process, and converting float times and colors.
