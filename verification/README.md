# fvr_engine

The core of a text-based roleplaying game engine that draws to a faux terminal, written in
Verus: every function under `src/` carries a contract that Verus proves.

- `src/` — the verified library: coordinates, directions, rectangles, line drawing, grid maps,
  sub maps and translate maps, timers and input repeats, the input manager, rich text parsing and format
  hints, the text widgets (writer, wrapper, buttons, button lists, frames, scrollbars, scroll
  logs), font metrics, the layout of font atlases, and the cells, things and goals of the game
  world. Public `law_*` proof functions state properties that span several calls.
- `tests/` — tests of the library on concrete values.
- `app/` — what cannot be verified: configuration and metrics files, the atlas tools' image handling
  and file reading, tiles and the terminal (whose opacities are floats), drawing the widgets onto
  tiles, and the floating-point distances, fields of view and path finding.

A few outside calls sit behind trusted items in `src/`: hash sets and maps of `fnv` and
`hashbrown`, the rectangle packer of `rect_packer`, and the XML reader of `xml-rs`. Each one's doc comment
says what its contract claims.
